//! The decisions of the peer-to-peer mesh: its configuration and listen
//! addresses, the table of known peers, and what each swarm event and each
//! command leads to. Peers are identified by the bytes of their peer ids and
//! addresses are given as multiaddress text.
use crate::cas::encryption::bytes_eq;
use vstd::prelude::*;
use vstd::string::StringExecFns;
use crate::text::{decimal_string, decimal_text, hex_string, hex_text};

verus! {

/// Configuration of the mesh; times are in milliseconds.
#[derive(Debug, Clone)]
pub struct NetworkConfig {
    /// TCP ports to listen on.
    pub listen_ports: Vec<u16>,
    /// Whether local peers are discovered by mDNS.
    pub mdns_enabled: bool,
    /// Bootstrap nodes, as multiaddress text.
    pub bootstrap_nodes: Vec<String>,
    /// Largest number of peers.
    pub max_peers: usize,
    /// Connection timeout.
    pub connection_timeout_ms: u64,
    /// Heartbeat interval.
    pub heartbeat_interval_ms: u64,
    /// Gossip fanout.
    pub gossip_fanout: usize,
}

impl Default for NetworkConfig {
    fn default() -> (r: NetworkConfig)
        ensures
            r.listen_ports@ == seq![30000u16, 30001u16],
            r.mdns_enabled,
            r.bootstrap_nodes@.len() == 0,
            r.max_peers == 100,
            r.connection_timeout_ms == 10000,
            r.heartbeat_interval_ms == 50,
            r.gossip_fanout == 3,
    {
        let mut ports: Vec<u16> = Vec::new();
        ports.push(30000);
        ports.push(30001);
        NetworkConfig {
            listen_ports: ports,
            mdns_enabled: true,
            bootstrap_nodes: Vec::new(),
            max_peers: 100,
            connection_timeout_ms: 10000,
            heartbeat_interval_ms: 50,
            gossip_fanout: 3,
        }
    }
}

/// The address the mesh listens on for a TCP port, on all IPv4 interfaces.
pub open spec fn listen_address_text(port: u16) -> Seq<char> {
    "/ip4/0.0.0.0/tcp/"@ + decimal_text(port as nat)
}

/// The listen addresses of a configuration, one per port, in order.
pub fn listen_addresses(config: &NetworkConfig) -> (r: Vec<String>)
    ensures
        r@.len() == config.listen_ports@.len(),
        forall|i: int| 0 <= i < r@.len() ==> (#[trigger] r@[i])@ == listen_address_text(config.listen_ports@[i]),
{
    let mut out: Vec<String> = Vec::new();
    let mut i: usize = 0;
    while i < config.listen_ports.len()
        invariant
            i <= config.listen_ports@.len(),
            out@.len() == i,
            forall|j: int| 0 <= j < i ==> (#[trigger] out@[j])@ == listen_address_text(config.listen_ports@[j]),
        decreases config.listen_ports@.len() - i,
    {
        let port = config.listen_ports[i];
        let addr = String::from_str("/ip4/0.0.0.0/tcp/").concat(decimal_string(port as u64).as_str());
        out.push(addr);
        i = i + 1;
    }
    out
}

/// State of the connection to a peer.
#[derive(Debug, Clone, PartialEq, Eq)]
pub enum ConnectionStatus {
    Disconnected,
    Connecting,
    Connected,
    Failed { reason: String },
}

/// Traffic counters of a peer; the latency is the last ping round trip.
#[derive(Debug, Clone, Copy, PartialEq, Eq, Structural)]
pub struct NetworkMetrics {
    /// Last ping round trip, in milliseconds.
    pub latency_ms: Option<u64>,
    pub bytes_sent: u64,
    pub bytes_received: u64,
    pub messages_sent: u64,
    pub messages_received: u64,
}

impl Default for NetworkMetrics {
    fn default() -> (r: NetworkMetrics)
        ensures
            r == (NetworkMetrics {
                latency_ms: None,
                bytes_sent: 0,
                bytes_received: 0,
                messages_sent: 0,
                messages_received: 0,
            }),
    {
        NetworkMetrics {
            latency_ms: None,
            bytes_sent: 0,
            bytes_received: 0,
            messages_sent: 0,
            messages_received: 0,
        }
    }
}

/// What the mesh knows of a peer.
#[derive(Debug)]
pub struct PeerInfo {
    /// Bytes of the peer id.
    pub peer_id: Vec<u8>,
    /// Its addresses.
    pub addresses: Vec<String>,
    pub site_id: Option<String>,
    pub agent_role: Option<String>,
    /// When it was last heard from.
    pub last_seen: std::time::Instant,
    pub connection_status: ConnectionStatus,
    pub network_metrics: NetworkMetrics,
}

/// A message exchanged over the mesh.
#[derive(Debug, Clone, PartialEq, Eq)]
pub enum PrismMessage {
    Heartbeat { agent_id: String, timestamp: u64, site_id: Option<String>, load_metrics: Vec<u8> },
    Join { agent_id: String, role: String, site_id: Option<String>, capabilities: Vec<String> },
    Leave { agent_id: String, reason: String },
    StateSync { state_hash: String, operations: Vec<u8> },
    Consensus { view_number: u64, sequence_number: u64, message_type: String, payload: Vec<u8> },
    Custom { message_type: String, payload: Vec<u8> },
}

/// An event the mesh reports to its users.
#[derive(Debug)]
pub enum NetworkEvent {
    PeerConnected { peer_id: Vec<u8>, address: String },
    PeerDisconnected { peer_id: Vec<u8>, reason: String },
    MessageReceived { peer_id: Vec<u8>, message: PrismMessage },
    NetworkPartition { isolated_peers: Vec<Vec<u8>> },
    DiscoveryCompleted { discovered_peers: usize, duration: std::time::Duration },
}

/// A command given to the mesh.
#[derive(Debug, Clone)]
pub enum NetworkCommand {
    SendMessage { peer_id: Vec<u8>, message: PrismMessage },
    BroadcastMessage { message: PrismMessage, exclude: Vec<Vec<u8>> },
    ConnectToPeer { address: String },
    DisconnectFromPeer { peer_id: Vec<u8> },
    UpdatePeerInfo { site_id: Option<String>, agent_role: Option<String> },
}

/// An event of the swarm's behaviours, as the mesh uses it.
#[derive(Debug, Clone)]
pub enum BehaviourInput {
    /// mDNS discovered peers at addresses.
    MdnsDiscovered { peers: Vec<(Vec<u8>, String)> },
    /// mDNS records of peers expired.
    MdnsExpired { peers: Vec<(Vec<u8>, String)> },
    /// A gossip message arrived; `message` is `None` where its data did not
    /// decode.
    GossipMessage { source: Option<Vec<u8>>, message: Option<PrismMessage> },
    /// The DHT bootstrap succeeded.
    BootstrapCompleted { peer: Vec<u8> },
    /// A ping succeeded with a round trip in milliseconds.
    PingSuccess { peer: Vec<u8>, rtt_ms: u64 },
    /// Any other behaviour event.
    Other,
}

/// An event of the swarm, as the mesh uses it.
#[derive(Debug, Clone)]
pub enum SwarmInput {
    NewListenAddr { address: String },
    ConnectionEstablished { peer_id: Vec<u8>, address: String },
    ConnectionClosed { peer_id: Vec<u8>, cause: String },
    Behaviour(BehaviourInput),
    Other,
}

/// What the mesh does in answer to an event.
#[derive(Debug)]
pub enum MeshAction {
    /// Report an event to the mesh's users.
    Emit(NetworkEvent),
    /// Add a peer's address to the DHT routing table.
    AddKademliaAddress { peer_id: Vec<u8>, address: String },
}

/// What the mesh does for a command.
#[derive(Debug, Clone)]
pub enum CommandAction {
    /// Publish a message on a gossip topic.
    Publish { topic: String, message: PrismMessage },
    /// Send a message to one peer, by publishing it on that peer's own topic.
    SendTo { peer_id: Vec<u8>, topic: String, message: PrismMessage },
    /// Dial an address.
    Dial { address: String },
    /// Close the connections to a peer.
    Disconnect { peer_id: Vec<u8> },
    /// Record the local site and agent role.
    UpdateLocal { site_id: Option<String>, agent_role: Option<String> },
}

/// The gossip topic agents share.
pub open spec fn agents_topic() -> Seq<char> {
    "prism-agents"@
}

/// The gossip topic of one peer: `prism-peer/` and the lowercase hexadecimal
/// text of its peer id bytes. Each mesh subscribes to its own.
pub open spec fn direct_topic_text(peer_id: Seq<u8>) -> Seq<char> {
    "prism-peer/"@ + hex_text(peer_id)
}

/// The gossip topic of one peer.
pub fn direct_topic(peer_id: &[u8]) -> (r: String)
    ensures
        r@ == direct_topic_text(peer_id@),
{
    let hex = hex_string(peer_id);
    String::from_str("prism-peer/").concat(hex.as_str())
}

/// Decide what a command leads to: a broadcast is published on the agents'
/// topic; a message for one peer is published on that peer's topic; a
/// connection request dials the address; a disconnection request closes the
/// connections to the peer; new local information is recorded.
pub fn decide_command(command: NetworkCommand) -> (r: CommandAction)
    ensures
        match command {
            NetworkCommand::BroadcastMessage { message, .. } => r matches CommandAction::Publish {
                topic,
                message: m,
            } && topic@ == agents_topic() && m == message,
            NetworkCommand::SendMessage { peer_id, message } => r matches CommandAction::SendTo {
                peer_id: p,
                topic,
                message: m,
            } && p@ == peer_id@ && topic@ == direct_topic_text(peer_id@) && m == message,
            NetworkCommand::ConnectToPeer { address } => r matches CommandAction::Dial {
                address: a,
            } && a == address,
            NetworkCommand::DisconnectFromPeer { peer_id } => r matches CommandAction::Disconnect {
                peer_id: p,
            } && p@ == peer_id@,
            NetworkCommand::UpdatePeerInfo { site_id, agent_role } => r matches CommandAction::UpdateLocal {
                site_id: s,
                agent_role: a,
            } && s == site_id && a == agent_role,
        },
{
    match command {
        NetworkCommand::BroadcastMessage { message, .. } => CommandAction::Publish {
            topic: String::from_str("prism-agents"),
            message,
        },
        NetworkCommand::SendMessage { peer_id, message } => {
            let topic = direct_topic(peer_id.as_slice());
            CommandAction::SendTo { peer_id, topic, message }
        },
        NetworkCommand::ConnectToPeer { address } => CommandAction::Dial { address },
        NetworkCommand::DisconnectFromPeer { peer_id } => CommandAction::Disconnect { peer_id },
        NetworkCommand::UpdatePeerInfo { site_id, agent_role } => CommandAction::UpdateLocal {
            site_id,
            agent_role,
        },
    }
}

/// The peers the mesh knows, each peer id at most once.
pub struct PeerTable {
    peers: Vec<PeerInfo>,
}

/// Whether a peer record is the one a new connection makes.
pub open spec fn fresh_connection(
    p: PeerInfo,
    peer_id: Seq<u8>,
    address: Seq<char>,
    now: std::time::Instant,
) -> bool {
    &&& p.peer_id@ == peer_id
    &&& p.addresses@.len() == 1 && p.addresses@[0]@ == address
    &&& p.site_id is None && p.agent_role is None
    &&& p.last_seen == now
    &&& p.connection_status == ConnectionStatus::Connected
    &&& p.network_metrics == NetworkMetrics {
        latency_ms: None,
        bytes_sent: 0,
        bytes_received: 0,
        messages_sent: 0,
        messages_received: 0,
    }
}

impl PeerTable {
    /// The peer records, keyed by peer id.
    pub closed spec fn table(&self) -> Map<Seq<u8>, PeerInfo> {
        Map::new(
            |k: Seq<u8>| exists|i: int| 0 <= i < self.peers@.len() && self.peers@[i].peer_id@ == k,
            |k: Seq<u8>|
                self.peers@[choose|i: int| 0 <= i < self.peers@.len() && self.peers@[i].peer_id@ == k],
        )
    }

    #[verifier::type_invariant]
    closed spec fn distinct_ids(&self) -> bool {
        forall|i: int, j: int|
            0 <= i < j < self.peers@.len() ==> #[trigger] self.peers@[i].peer_id@
                != #[trigger] self.peers@[j].peer_id@
    }

    /// An empty table.
    pub fn new() -> (r: PeerTable)
        ensures
            r.table() == Map::<Seq<u8>, PeerInfo>::empty(),
    {
        let r = PeerTable { peers: Vec::new() };
        assert(r.table() =~= Map::<Seq<u8>, PeerInfo>::empty());
        r
    }

    /// Number of known peers.
    pub fn len(&self) -> (r: usize)
        ensures
            r == self.table().dom().len(),
    {
        proof {
            use_type_invariant(self);
            self.lemma_table_len();
        }
        self.peers.len()
    }

    proof fn lemma_table_len(&self)
        requires
            self.distinct_ids(),
        ensures
            self.table().dom().len() == self.peers@.len(),
    {
        let ids = self.peers@.map_values(|p: PeerInfo| p.peer_id@);
        assert(ids.no_duplicates()) by {
            assert forall|i: int, j: int| 0 <= i < ids.len() && 0 <= j < ids.len() && i != j implies ids[i] != ids[j] by {
                if i < j {
                    assert(self.peers@[i].peer_id@ != self.peers@[j].peer_id@);
                } else {
                    assert(self.peers@[j].peer_id@ != self.peers@[i].peer_id@);
                }
            }
        }
        assert(self.table().dom() =~= ids.to_set()) by {
            assert forall|k: Seq<u8>| self.table().dom().contains(k) implies ids.to_set().contains(k) by {
                let i = choose|i: int| 0 <= i < self.peers@.len() && self.peers@[i].peer_id@ == k;
                assert(ids[i] == k);
            }
            assert forall|k: Seq<u8>| ids.to_set().contains(k) implies self.table().dom().contains(k) by {
                let i = choose|i: int| 0 <= i < ids.len() && ids[i] == k;
                assert(self.peers@[i].peer_id@ == k);
            }
        }
        ids.unique_seq_to_set();
    }

    /// The position of a peer, if known.
    fn position(&self, peer_id: &[u8]) -> (r: Option<usize>)
        ensures
            match r {
                Some(i) => i < self.peers@.len() && self.peers@[i as int].peer_id@ == peer_id@,
                None => forall|i: int| 0 <= i < self.peers@.len() ==> self.peers@[i].peer_id@ != peer_id@,
            },
    {
        let mut i: usize = 0;
        while i < self.peers.len()
            invariant
                i <= self.peers@.len(),
                forall|j: int| 0 <= j < i ==> self.peers@[j].peer_id@ != peer_id@,
            decreases self.peers@.len() - i,
        {
            if bytes_eq(self.peers[i].peer_id.as_slice(), peer_id) {
                return Some(i);
            }
            i = i + 1;
        }
        None
    }

    /// Whether a peer is known.
    pub fn contains(&self, peer_id: &[u8]) -> (r: bool)
        ensures
            r == self.table().contains_key(peer_id@),
    {
        match self.position(peer_id) {
            Some(i) => {
                assert(self.table().contains_key(peer_id@));
                true
            },
            None => false,
        }
    }

    /// Take the record of a peer out of the table.
    fn take(&mut self, peer_id: &[u8]) -> (r: Option<PeerInfo>)
        ensures
            match r {
                Some(p) => old(self).table().contains_key(peer_id@) && p == old(self).table()[peer_id@]
                    && final(self).table() == old(self).table().remove(peer_id@),
                None => !old(self).table().contains_key(peer_id@) && final(self).table() == old(self).table(),
            },
    {
        proof {
            use_type_invariant(&*self);
        }
        match self.position(peer_id) {
            None => {
                assert(!self.table().contains_key(peer_id@));
                None
            },
            Some(i) => {
                let ghost before = self.peers@;
                let ghost t0 = self.table();
                proof {
                    let w = choose|w: int| 0 <= w < before.len() && before[w].peer_id@ == peer_id@;
                    if w != i {
                        if w < i {
                            assert(before[w].peer_id@ != before[i as int].peer_id@);
                        } else {
                            assert(before[i as int].peer_id@ != before[w].peer_id@);
                        }
                    }
                    assert(t0[peer_id@] == before[i as int]);
                }
                let mut peers = Vec::new();
                std::mem::swap(&mut peers, &mut self.peers);
                let p = peers.remove(i);
                proof {
                    assert forall|a: int, b: int| 0 <= a < b < peers@.len() implies #[trigger] peers@[a].peer_id@
                        != #[trigger] peers@[b].peer_id@ by {
                        let a0 = if a < i { a } else { a + 1 };
                        let b0 = if b < i { b } else { b + 1 };
                        assert(peers@[a] == before[a0]);
                        assert(peers@[b] == before[b0]);
                    }
                }
                self.peers = peers;
                proof {
                    assert forall|k: Seq<u8>| #[trigger] self.table().contains_key(k) == t0.remove(peer_id@).contains_key(k) by {
                        if t0.contains_key(k) && k != peer_id@ {
                            let w = choose|w: int| 0 <= w < before.len() && before[w].peer_id@ == k;
                            assert(w != i);
                            let w2 = if w < i { w } else { w - 1 };
                            assert(self.peers@[w2] == before[w]);
                        }
                        if self.table().contains_key(k) {
                            let w = choose|w: int| 0 <= w < self.peers@.len() && self.peers@[w].peer_id@ == k;
                            let w0 = if w < i { w } else { w + 1 };
                            assert(before[w0] == self.peers@[w]);
                            assert(w0 != i);
                        }
                    }
                    assert forall|k: Seq<u8>| #[trigger] self.table().contains_key(k) implies self.table()[k] == t0.remove(peer_id@)[k] by {
                        let w = choose|w: int| 0 <= w < self.peers@.len() && self.peers@[w].peer_id@ == k;
                        let w0 = if w < i { w } else { w + 1 };
                        assert(before[w0] == self.peers@[w]);
                        let v = choose|v: int| 0 <= v < before.len() && before[v].peer_id@ == k;
                        if v != w0 {
                            if v < w0 {
                                assert(before[v].peer_id@ != before[w0].peer_id@);
                            } else {
                                assert(before[w0].peer_id@ != before[v].peer_id@);
                            }
                        }
                    }
                    assert(self.table() =~= t0.remove(peer_id@));
                }
                Some(p)
            },
        }
    }

    /// Put a record into the table, in place of any record with its id.
    fn put(&mut self, info: PeerInfo)
        ensures
            final(self).table() == old(self).table().insert(info.peer_id@, info),
    {
        let key = info.peer_id.clone();
        let _ = self.take(key.as_slice());
        proof {
            use_type_invariant(&*self);
        }
        let ghost t0 = self.table();
        let ghost before = self.peers@;
        let ghost k = info.peer_id@;
        assert(!t0.contains_key(k));
        let mut peers = Vec::new();
        std::mem::swap(&mut peers, &mut self.peers);
        peers.push(info);
        proof {
            assert forall|a: int, b: int| 0 <= a < b < peers@.len() implies #[trigger] peers@[a].peer_id@
                != #[trigger] peers@[b].peer_id@ by {
                if b == before.len() {
                    assert(before[a].peer_id@ != k) by {
                        if before[a].peer_id@ == k {
                            assert(t0.contains_key(k));
                        }
                    }
                }
            }
        }
        self.peers = peers;
        proof {
            let n = before.len() as int;
            assert forall|q: Seq<u8>| #[trigger] self.table().contains_key(q) == t0.insert(k, info).contains_key(q) by {
                if q == k {
                    assert(self.peers@[n].peer_id@ == k);
                } else if t0.contains_key(q) {
                    let w = choose|w: int| 0 <= w < before.len() && before[w].peer_id@ == q;
                    assert(self.peers@[w] == before[w]);
                }
                if self.table().contains_key(q) && q != k {
                    let w = choose|w: int| 0 <= w < self.peers@.len() && self.peers@[w].peer_id@ == q;
                    assert(w != n);
                    assert(before[w] == self.peers@[w]);
                }
            }
            assert forall|q: Seq<u8>| #[trigger] self.table().contains_key(q) implies self.table()[q] == t0.insert(k, info)[q] by {
                let w = choose|w: int| 0 <= w < self.peers@.len() && self.peers@[w].peer_id@ == q;
                if q == k {
                    if w != n {
                        assert(before[w] == self.peers@[w]);
                        assert(t0.contains_key(k));
                    }
                } else {
                    assert(w != n);
                    assert(before[w] == self.peers@[w]);
                    let v = choose|v: int| 0 <= v < before.len() && before[v].peer_id@ == q;
                    if v != w {
                        if v < w {
                            assert(before[v].peer_id@ != before[w].peer_id@);
                        } else {
                            assert(before[w].peer_id@ != before[v].peer_id@);
                        }
                    }
                }
            }
            assert(self.table() =~= t0.insert(k, info));
        }
    }

    /// Update the table for a swarm event observed at `now`, and say what
    /// the mesh does in answer:
    /// - a new connection records the peer as connected at its address and
    ///   reports it;
    /// - a closed connection marks a known peer disconnected and reports it;
    /// - peers found by mDNS have their addresses added to the DHT;
    /// - a gossip message that decoded is reported as received from its
    ///   source, or from `local_peer_id` where it has none;
    /// - a successful ping records the round trip and the time for a known
    ///   peer;
    /// - nothing else changes anything.
    pub fn handle_swarm_event(
        &mut self,
        event: SwarmInput,
        local_peer_id: &[u8],
        now: std::time::Instant,
    ) -> (r: Vec<MeshAction>)
        ensures
            match event {
                SwarmInput::ConnectionEstablished { peer_id, address } => {
                    &&& final(self).table().dom() == old(self).table().dom().insert(peer_id@)
                    &&& fresh_connection(final(self).table()[peer_id@], peer_id@, address@, now)
                    &&& forall|k: Seq<u8>|
                        k != peer_id@ && #[trigger] old(self).table().contains_key(k) ==> final(self).table()[k] == old(self).table()[k]
                    &&& r@.len() == 1
                    &&& r@[0] matches MeshAction::Emit(NetworkEvent::PeerConnected { peer_id: p, address: a })
                        && p@ == peer_id@ && a@ == address@
                },
                SwarmInput::ConnectionClosed { peer_id, cause } => {
                    &&& final(self).table().dom() == old(self).table().dom()
                    &&& old(self).table().contains_key(peer_id@) ==> {
                        let p = old(self).table()[peer_id@];
                        let q = final(self).table()[peer_id@];
                        &&& q.connection_status == ConnectionStatus::Disconnected
                        &&& q.peer_id == p.peer_id && q.addresses == p.addresses
                        &&& q.site_id == p.site_id && q.agent_role == p.agent_role
                        &&& q.last_seen == p.last_seen && q.network_metrics == p.network_metrics
                    }
                    &&& forall|k: Seq<u8>|
                        k != peer_id@ && #[trigger] old(self).table().contains_key(k) ==> final(self).table()[k] == old(self).table()[k]
                    &&& r@.len() == 1
                    &&& r@[0] matches MeshAction::Emit(NetworkEvent::PeerDisconnected { peer_id: p, reason })
                        && p@ == peer_id@ && reason@ == cause@
                },
                SwarmInput::Behaviour(BehaviourInput::MdnsDiscovered { peers }) => {
                    &&& final(self).table() == old(self).table()
                    &&& r@.len() == peers@.len()
                    &&& forall|i: int|
                        0 <= i < r@.len() ==> ((#[trigger] r@[i]) matches MeshAction::AddKademliaAddress {
                            peer_id: p,
                            address: a,
                        } && p@ == peers@[i].0@ && a@ == peers@[i].1@)
                },
                SwarmInput::Behaviour(BehaviourInput::GossipMessage { source, message }) => {
                    &&& final(self).table() == old(self).table()
                    &&& match message {
                        Some(m) => r@.len() == 1 && (r@[0] matches MeshAction::Emit(
                            NetworkEvent::MessageReceived { peer_id: p, message: m2 },
                        ) && m2 == m && p@ == (match source {
                            Some(s) => s@,
                            None => local_peer_id@,
                        })),
                        None => r@.len() == 0,
                    }
                },
                SwarmInput::Behaviour(BehaviourInput::PingSuccess { peer, rtt_ms }) => {
                    &&& final(self).table().dom() == old(self).table().dom()
                    &&& old(self).table().contains_key(peer@) ==> {
                        let p = old(self).table()[peer@];
                        let q = final(self).table()[peer@];
                        &&& q.network_metrics == NetworkMetrics {
                            latency_ms: Some(rtt_ms),
                            ..p.network_metrics
                        }
                        &&& q.last_seen == now
                        &&& q.peer_id == p.peer_id && q.addresses == p.addresses
                        &&& q.site_id == p.site_id && q.agent_role == p.agent_role
                        &&& q.connection_status == p.connection_status
                    }
                    &&& forall|k: Seq<u8>|
                        k != peer@ && #[trigger] old(self).table().contains_key(k) ==> final(self).table()[k] == old(self).table()[k]
                    &&& r@.len() == 0
                },
                _ => final(self).table() == old(self).table() && r@.len() == 0,
            },
    {
        let mut actions: Vec<MeshAction> = Vec::new();
        match event {
            SwarmInput::ConnectionEstablished { peer_id, address } => {
                let mut addresses: Vec<String> = Vec::new();
                addresses.push(address.clone());
                let info = PeerInfo {
                    peer_id: peer_id.clone(),
                    addresses,
                    site_id: None,
                    agent_role: None,
                    last_seen: now,
                    connection_status: ConnectionStatus::Connected,
                    network_metrics: NetworkMetrics::default(),
                };
                self.put(info);
                actions.push(MeshAction::Emit(NetworkEvent::PeerConnected { peer_id, address }));
            },
            SwarmInput::ConnectionClosed { peer_id, cause } => {
                match self.take(peer_id.as_slice()) {
                    Some(p) => {
                        let q = PeerInfo { connection_status: ConnectionStatus::Disconnected, ..p };
                        self.put(q);
                    },
                    None => {},
                }
                actions.push(
                    MeshAction::Emit(NetworkEvent::PeerDisconnected { peer_id, reason: cause }),
                );
            },
            SwarmInput::Behaviour(BehaviourInput::MdnsDiscovered { peers }) => {
                let mut i: usize = 0;
                while i < peers.len()
                    invariant
                        i <= peers@.len(),
                        actions@.len() == i,
                        forall|j: int|
                            0 <= j < i ==> ((#[trigger] actions@[j]) matches MeshAction::AddKademliaAddress {
                                peer_id: p,
                                address: a,
                            } && p@ == peers@[j].0@ && a@ == peers@[j].1@),
                    decreases peers@.len() - i,
                {
                    let (p, a) = &peers[i];
                    actions.push(
                        MeshAction::AddKademliaAddress { peer_id: p.clone(), address: a.clone() },
                    );
                    i = i + 1;
                }
            },
            SwarmInput::Behaviour(BehaviourInput::GossipMessage { source, message }) => {
                match message {
                    Some(m) => {
                        let from = match source {
                            Some(s) => s,
                            None => vstd::slice::slice_to_vec(local_peer_id),
                        };
                        actions.push(
                            MeshAction::Emit(NetworkEvent::MessageReceived { peer_id: from, message: m }),
                        );
                    },
                    None => {},
                }
            },
            SwarmInput::Behaviour(BehaviourInput::PingSuccess { peer, rtt_ms }) => {
                match self.take(peer.as_slice()) {
                    Some(p) => {
                        let metrics = NetworkMetrics { latency_ms: Some(rtt_ms), ..p.network_metrics };
                        let q = PeerInfo { network_metrics: metrics, last_seen: now, ..p };
                        self.put(q);
                    },
                    None => {},
                }
            },
            _ => {},
        }
        actions
    }
}

} // verus!
