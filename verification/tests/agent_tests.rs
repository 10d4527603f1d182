use prism::agent::communication::{
    content_hash_matches, decide_after_handler, decide_incoming, handler_key, is_expired_at,
    message_content_hash, stop_acks, AckType, CommunicationMetrics, DeliveryMode, FollowUp,
    HandlerOutcome, IncomingDecision, MessageId, MessageKind, PingHandler, Priority,
};
use prism::agent::error::{config_error, validation_error, PrismError, StorageError};
use prism::agent::swarm::{AgentId, AgentRole, AgentStatus};
use prism::consensus::{AgentCommand, ConsensusBuilder, ConsensusConfig, LogEntry, NodeId};
use prism::crdt::{PhysicalTimestamp, ReplicaId};
use prism::network::{
    decide_command, direct_topic, listen_addresses, BehaviourInput, CommandAction, ConnectionStatus, MeshAction,
    NetworkCommand, NetworkConfig, NetworkEvent, PeerTable, PrismMessage, SwarmInput,
};

#[test]
fn test_error_chain() {
    let storage_err = StorageError::BlockNotFound { hash: "abc123".to_string() };
    let prism_err: PrismError = storage_err.into();

    assert!(matches!(prism_err, PrismError::Storage(_)));
    assert!(prism_err.to_string().contains("Block not found"));
    assert_eq!(prism_err.to_string(), "Storage error: Block not found: hash abc123");
}

#[test]
fn error_messages_with_numbers() {
    let e = PrismError::Timeout { timeout_ms: 1500 };
    assert_eq!(e.to_string(), "Timeout error: operation timed out after 1500ms");
    let e = StorageError::StorageFull { used_bytes: 0, capacity_bytes: 1048576 };
    assert_eq!(e.to_string(), "Storage full: 0 / 1048576 bytes");
}

#[test]
fn test_error_macros() {
    let config_err = config_error(&format!("Invalid port: {}", 65536));
    assert!(matches!(config_err, PrismError::Configuration { .. }));

    let validation_err = validation_error("Agent ID cannot be empty");
    assert!(matches!(validation_err, PrismError::Validation { .. }));
}

#[test]
fn test_agent_id_creation() {
    let id1 = AgentId::new();
    let id2 = AgentId::new();
    assert_ne!(id1, id2);

    let id_str = id1.to_string();
    let id3 = AgentId::from_string(&id_str).unwrap();
    assert_eq!(id1, id3);
}

#[test]
fn agent_id_rejects_non_uuid_text() {
    assert!(matches!(AgentId::from_string("not-a-uuid"), Err(PrismError::Validation { .. })));
}

#[test]
fn test_agent_role_display() {
    assert_eq!(AgentRole::Master.to_string(), "master");
    assert_eq!(AgentRole::Worker.to_string(), "worker");
    assert_eq!(AgentRole::Gateway.to_string(), "gateway");
    assert_eq!(AgentRole::Mobile.to_string(), "mobile");
}

#[test]
fn agent_status_text() {
    assert_eq!(AgentStatus::Healthy.to_string(), "healthy");
    assert_eq!(
        AgentStatus::Degraded { reason: "High CPU usage".to_string() }.to_string(),
        "degraded: High CPU usage"
    );
}

#[test]
fn handler_keys() {
    assert_eq!(handler_key(&MessageKind::Ping), "ping");
    assert_eq!(handler_key(&MessageKind::TaskAssignment { task_type: "build".to_string() }), "build");
    assert_eq!(handler_key(&MessageKind::DataShare { data_type: "metrics".to_string() }), "metrics");
    assert_eq!(handler_key(&MessageKind::CapabilitiesResponse), "capabilities_response");
}

#[test]
fn incoming_message_decisions() {
    let mut metrics = CommunicationMetrics::new();
    let kind = MessageKind::Ping;
    let d = decide_incoming(&mut metrics, false, false, Priority::High, DeliveryMode::ReliableDelivery, &kind);
    assert!(matches!(d, IncomingDecision::Reject { .. }));
    assert_eq!(metrics, CommunicationMetrics::new());

    let d = decide_incoming(&mut metrics, true, true, Priority::High, DeliveryMode::ReliableDelivery, &kind);
    assert_eq!(d, IncomingDecision::Expired);
    assert_eq!(metrics.expired_messages, 1);

    let d = decide_incoming(&mut metrics, true, false, Priority::High, DeliveryMode::ReliableDelivery, &kind);
    assert_eq!(d, IncomingDecision::Dispatch { send_delivery_ack: true, handler_key: "ping".to_string() });
    assert_eq!(metrics.messages_received, [0, 0, 1, 0, 0]);

    let d = decide_incoming(&mut metrics, true, false, Priority::Low, DeliveryMode::BestEffort, &kind);
    assert_eq!(d, IncomingDecision::Dispatch { send_delivery_ack: false, handler_key: "ping".to_string() });
    assert_eq!(metrics.messages_received, [1, 0, 1, 0, 0]);
}

#[test]
fn after_handler_decisions() {
    assert_eq!(decide_after_handler(false, HandlerOutcome::Responded, DeliveryMode::BestEffort), FollowUp::Nothing);
    assert_eq!(
        decide_after_handler(true, HandlerOutcome::Responded, DeliveryMode::ReliableResult),
        FollowUp::SendResponse { priority: Priority::Normal, delivery_mode: DeliveryMode::BestEffort }
    );
    assert_eq!(decide_after_handler(true, HandlerOutcome::Failed, DeliveryMode::ReliableProcessing), FollowUp::SendFailedAck);
    assert_eq!(decide_after_handler(true, HandlerOutcome::Failed, DeliveryMode::ReliableDelivery), FollowUp::Nothing);
    assert_eq!(decide_after_handler(true, HandlerOutcome::NoResponse, DeliveryMode::ReliableResult), FollowUp::Nothing);
}

#[test]
fn message_expiry_and_integrity() {
    let sent = PhysicalTimestamp::from_datetime(1000, 500);
    assert!(!is_expired_at(sent, 3600, PhysicalTimestamp::from_datetime(4600, 500)));
    assert!(is_expired_at(sent, 3600, PhysicalTimestamp::from_datetime(4600, 501)));
    assert!(is_expired_at(sent, 3600, PhysicalTimestamp::from_datetime(4601, 0)));
    let h = message_content_hash(b"payload");
    assert!(content_hash_matches(&h, b"payload"));
    assert!(!content_hash_matches(&h, b"payload!"));
}

#[test]
fn ping_handler_echoes_sequence() {
    let handler = PingHandler;
    let t = PhysicalTimestamp::from_datetime(5, 0);
    let now = PhysicalTimestamp::from_datetime(6, 0);
    let reply = handler.reply_at(Some((t, 42)), now).unwrap();
    assert_eq!(reply.original_timestamp, t);
    assert_eq!(reply.response_timestamp, now);
    assert_eq!(reply.sequence, 42);
    assert!(handler.reply_at(None, now).is_none());
}

#[test]
fn stopping_fails_pending_acks() {
    let pending = vec![MessageId(1), MessageId(2)];
    let now = PhysicalTimestamp::from_datetime(9, 0);
    let acks = stop_acks(&pending, now);
    assert_eq!(acks.len(), 2);
    assert_eq!(acks[1].message_id, MessageId(2));
    assert_eq!(acks[0].ack_type, AckType::Failed);
    assert_eq!(acks[0].error.as_deref(), Some("Communication manager stopped"));
}

#[test]
fn consensus_config_defaults_and_builder() {
    let c = ConsensusConfig::default();
    assert_eq!(c.election_timeout_ms, (150, 300));
    assert_eq!(c.heartbeat_interval_ms, 50);
    assert_eq!(c.max_entries_per_message, 100);
    assert_eq!(c.snapshot_threshold, 10000);
    assert_eq!(c.vote_timeout_ms, 1000);
    assert_eq!(c.rpc_timeout_ms, 5000);
    let node = NodeId::from_uuid(5);
    let b = ConsensusBuilder::new(node).cluster_nodes(vec![NodeId::from_uuid(6)]);
    assert_eq!(b.node_id, node);
    assert_eq!(b.initial_cluster, vec![NodeId::from_uuid(6)]);
}

#[test]
fn log_entry_hash_checks_its_encoding() {
    let entry = LogEntry::new_at(
        1,
        2,
        AgentCommand::Custom { command_type: "x".to_string(), payload: vec![1] },
        NodeId::from_uuid(3),
        PhysicalTimestamp::from_datetime(0, 0),
        b"encoding",
    );
    assert!(entry.verify_hash(b"encoding"));
    assert!(!entry.verify_hash(b"other encoding"));
}

#[test]
fn test_network_config_defaults() {
    let config = NetworkConfig::default();
    assert_eq!(config.listen_ports, vec![30000, 30001]);
    assert!(config.mdns_enabled);
    assert_eq!(config.gossip_fanout, 3);
    assert_eq!(config.heartbeat_interval_ms, 50);
    assert_eq!(config.max_peers, 100);
    assert_eq!(config.connection_timeout_ms, 10000);
    assert_eq!(
        listen_addresses(&config),
        vec!["/ip4/0.0.0.0/tcp/30000".to_string(), "/ip4/0.0.0.0/tcp/30001".to_string()]
    );
}

#[test]
fn network_commands() {
    let msg = PrismMessage::Leave { agent_id: "a".to_string(), reason: "done".to_string() };
    match decide_command(NetworkCommand::BroadcastMessage { message: msg.clone(), exclude: vec![] }) {
        CommandAction::Publish { topic, message } => {
            assert_eq!(topic, "prism-agents");
            assert_eq!(message, msg);
        }
        _ => panic!("expected publish"),
    }
    assert!(matches!(
        decide_command(NetworkCommand::ConnectToPeer { address: "/ip4/1.2.3.4/tcp/1".to_string() }),
        CommandAction::Dial { .. }
    ));
    match decide_command(NetworkCommand::DisconnectFromPeer { peer_id: vec![1] }) {
        CommandAction::Disconnect { peer_id } => assert_eq!(peer_id, vec![1]),
        other => panic!("unexpected {:?}", other),
    }
}

#[test]
fn peer_table_tracks_connections_and_pings() {
    let mut table = PeerTable::new();
    let now = std::time::Instant::now();
    let peer = vec![1u8, 2, 3];
    let actions = table.handle_swarm_event(
        SwarmInput::ConnectionEstablished { peer_id: peer.clone(), address: "/ip4/10.0.0.1/tcp/30000".to_string() },
        &[9],
        now,
    );
    assert_eq!(actions.len(), 1);
    assert!(matches!(&actions[0], MeshAction::Emit(NetworkEvent::PeerConnected { .. })));
    assert!(table.contains(&peer));
    assert_eq!(table.len(), 1);

    let actions = table.handle_swarm_event(
        SwarmInput::Behaviour(BehaviourInput::PingSuccess { peer: peer.clone(), rtt_ms: 12 }),
        &[9],
        now,
    );
    assert!(actions.is_empty());

    let actions = table.handle_swarm_event(
        SwarmInput::ConnectionClosed { peer_id: peer.clone(), cause: "timeout".to_string() },
        &[9],
        now,
    );
    match &actions[0] {
        MeshAction::Emit(NetworkEvent::PeerDisconnected { peer_id, reason }) => {
            assert_eq!(peer_id, &peer);
            assert_eq!(reason, "timeout");
        }
        _ => panic!("expected disconnect"),
    }
    assert_eq!(table.len(), 1);

    let actions = table.handle_swarm_event(
        SwarmInput::Behaviour(BehaviourInput::GossipMessage {
            source: None,
            message: Some(PrismMessage::Custom { message_type: "t".to_string(), payload: vec![] }),
        }),
        &[9],
        now,
    );
    match &actions[0] {
        MeshAction::Emit(NetworkEvent::MessageReceived { peer_id, .. }) => assert_eq!(peer_id, &vec![9u8]),
        _ => panic!("expected message"),
    }
    let actions = table.handle_swarm_event(
        SwarmInput::Behaviour(BehaviourInput::MdnsDiscovered {
            peers: vec![(vec![4], "a".to_string()), (vec![5], "b".to_string())],
        }),
        &[9],
        now,
    );
    assert_eq!(actions.len(), 2);
    let _ = ConnectionStatus::Connected;
}

#[test]
fn new_ids_are_version_4_uuids() {
    let mask: u128 = 0xF000C000000000000000;
    let v4: u128 = 0x40008000000000000000;
    assert_eq!(AgentId::new().0 & mask, v4);
    assert_eq!(NodeId::new().0 & mask, v4);
    assert_eq!(MessageId::new().0 & mask, v4);
    assert_eq!(ReplicaId::new().0 & mask, v4);
}

#[test]
fn send_message_goes_to_the_peer_topic() {
    let msg = PrismMessage::Custom { message_type: "direct".to_string(), payload: vec![9, 8] };
    match decide_command(NetworkCommand::SendMessage { peer_id: vec![0x0a, 0xff], message: msg.clone() }) {
        CommandAction::SendTo { peer_id, topic, message } => {
            assert_eq!(peer_id, vec![0x0a, 0xff]);
            assert_eq!(topic, "prism-peer/0aff");
            assert_eq!(message, msg);
        }
        other => panic!("unexpected {:?}", other),
    }
    assert_eq!(direct_topic(&[1, 2]), "prism-peer/0102");
}

#[test]
fn update_peer_info_is_recorded() {
    match decide_command(NetworkCommand::UpdatePeerInfo {
        site_id: Some("site-a".to_string()),
        agent_role: Some("worker".to_string()),
    }) {
        CommandAction::UpdateLocal { site_id, agent_role } => {
            assert_eq!(site_id.as_deref(), Some("site-a"));
            assert_eq!(agent_role.as_deref(), Some("worker"));
        }
        other => panic!("unexpected {:?}", other),
    }
}
