//! Agent-to-agent messaging: message identity, priorities and delivery
//! modes, acknowledgments, metrics, and the decisions taken on an incoming
//! message before and after its handler runs.
use crate::cas::integrity::{blake3_digest, compute_checksum, BlockHash};
use crate::crdt::{phys_lt, PhysicalTimestamp};
use vstd::prelude::*;

verus! {

broadcast use vstd::array::group_array_axioms;

/// Time-to-live of a new message, in seconds.
pub const DEFAULT_TTL_SECONDS: u32 = 3600;

/// Identifier of a message: the 128-bit value of a UUID.
#[derive(Debug, Clone, Copy, PartialEq, Eq, Structural, Hash)]
pub struct MessageId(pub u128);

impl MessageId {
    /// A new random id: a fresh version-4 UUID.
    pub fn new() -> (r: MessageId)
        ensures
            crate::ident::is_v4_uuid(r.0),
    {
        MessageId(crate::ident::random_uuid())
    }
}

/// Priority of a message, from lowest to highest.
#[derive(Debug, Clone, Copy, PartialEq, Eq, Structural, Hash)]
pub enum Priority {
    Low,
    Normal,
    High,
    Critical,
    Emergency,
}

/// The rank of a priority: 0 for `Low` up to 4 for `Emergency`.
pub open spec fn priority_rank(p: Priority) -> int {
    match p {
        Priority::Low => 0,
        Priority::Normal => 1,
        Priority::High => 2,
        Priority::Critical => 3,
        Priority::Emergency => 4,
    }
}

impl Priority {
    /// The rank of this priority.
    pub fn rank(&self) -> (r: usize)
        ensures
            r == priority_rank(*self),
    {
        match self {
            Priority::Low => 0,
            Priority::Normal => 1,
            Priority::High => 2,
            Priority::Critical => 3,
            Priority::Emergency => 4,
        }
    }
}

/// What a sender requires of delivery.
#[derive(Debug, Clone, Copy, PartialEq, Eq, Structural)]
pub enum DeliveryMode {
    /// No acknowledgment.
    BestEffort,
    /// Acknowledge delivery.
    ReliableDelivery,
    /// Acknowledge processing.
    ReliableProcessing,
    /// Acknowledge the result.
    ReliableResult,
}

/// Status of a task.
#[derive(Debug, Clone, Copy, PartialEq, Eq, Structural)]
pub enum TaskStatus {
    Pending,
    InProgress,
    Paused,
    Completed,
    Failed,
    Cancelled,
}

/// Kind of an acknowledgment.
#[derive(Debug, Clone, Copy, PartialEq, Eq, Structural)]
pub enum AckType {
    /// The message was delivered.
    Delivered,
    /// The message was processed.
    Processed,
    /// The task was completed.
    Completed,
    /// Processing failed.
    Failed,
}

/// Encryption parameters of a secured message.
#[derive(Debug, Clone)]
pub struct EncryptionInfo {
    /// Encryption algorithm.
    pub algorithm: String,
    /// Key derivation method.
    pub key_derivation: String,
    /// Initialization vector or nonce.
    pub iv: Vec<u8>,
    /// Authentication tag, for AEAD ciphers.
    pub auth_tag: Option<Vec<u8>>,
}

/// Acknowledgment of a message.
#[derive(Debug, Clone)]
pub struct MessageAck {
    /// The acknowledged message.
    pub message_id: MessageId,
    /// What is acknowledged.
    pub ack_type: AckType,
    /// When.
    pub timestamp: PhysicalTimestamp,
    /// Error information, for a failure.
    pub error: Option<String>,
}

/// The kind of a message's content, with what selects its handler.
#[derive(Debug, Clone, PartialEq, Eq)]
pub enum MessageKind {
    TaskAssignment { task_type: String },
    TaskProgress,
    TaskResult,
    CapabilitiesRequest,
    CapabilitiesResponse,
    Ping,
    Pong,
    ResourceRequest,
    ResourceResponse,
    Coordination,
    Vote,
    DataShare { data_type: String },
    Emergency,
}

/// The key of the handler for a kind of message: the task type of a task
/// assignment, the data type of shared data, else the kind's name.
pub open spec fn handler_key_of(kind: MessageKind) -> Seq<char> {
    match kind {
        MessageKind::TaskAssignment { task_type } => task_type@,
        MessageKind::TaskProgress => "task_progress"@,
        MessageKind::TaskResult => "task_result"@,
        MessageKind::CapabilitiesRequest => "capabilities_request"@,
        MessageKind::CapabilitiesResponse => "capabilities_response"@,
        MessageKind::Ping => "ping"@,
        MessageKind::Pong => "pong"@,
        MessageKind::ResourceRequest => "resource_request"@,
        MessageKind::ResourceResponse => "resource_response"@,
        MessageKind::Coordination => "coordination"@,
        MessageKind::Vote => "vote"@,
        MessageKind::DataShare { data_type } => data_type@,
        MessageKind::Emergency => "emergency"@,
    }
}

/// The key of the handler for a kind of message.
pub fn handler_key(kind: &MessageKind) -> (r: String)
    ensures
        r@ == handler_key_of(*kind),
{
    match kind {
        MessageKind::TaskAssignment { task_type } => task_type.clone(),
        MessageKind::TaskProgress => "task_progress".to_owned(),
        MessageKind::TaskResult => "task_result".to_owned(),
        MessageKind::CapabilitiesRequest => "capabilities_request".to_owned(),
        MessageKind::CapabilitiesResponse => "capabilities_response".to_owned(),
        MessageKind::Ping => "ping".to_owned(),
        MessageKind::Pong => "pong".to_owned(),
        MessageKind::ResourceRequest => "resource_request".to_owned(),
        MessageKind::ResourceResponse => "resource_response".to_owned(),
        MessageKind::Coordination => "coordination".to_owned(),
        MessageKind::Vote => "vote".to_owned(),
        MessageKind::DataShare { data_type } => data_type.clone(),
        MessageKind::Emergency => "emergency".to_owned(),
    }
}

/// The content hash of an encoded message: its BLAKE3 digest.
pub fn message_content_hash(encoded_message: &[u8]) -> (r: BlockHash)
    ensures
        r@ == blake3_digest(encoded_message@),
{
    compute_checksum(encoded_message)
}

/// Whether an encoded message matches its content hash.
pub fn content_hash_matches(content_hash: &BlockHash, encoded_message: &[u8]) -> (r: bool)
    ensures
        r == (blake3_digest(encoded_message@) == content_hash@),
{
    let h = compute_checksum(encoded_message);
    let mut i: usize = 0;
    while i < 32
        invariant
            i <= 32,
            h@ == blake3_digest(encoded_message@),
            forall|j: int| 0 <= j < i ==> h@[j] == content_hash@[j],
        decreases 32 - i,
    {
        if h[i] != content_hash[i] {
            assert(h@[i as int] != content_hash@[i as int]);
            return false;
        }
        i = i + 1;
    }
    assert(h@ =~= content_hash@);
    true
}

/// Whether a message sent at `timestamp` with a time-to-live of
/// `ttl_seconds` has expired at `now`: `now` is strictly after its expiry.
pub open spec fn expired_at(timestamp: PhysicalTimestamp, ttl_seconds: u32, now: PhysicalTimestamp) -> bool {
    now.secs > timestamp.secs + ttl_seconds || (now.secs == timestamp.secs + ttl_seconds && now.nanos
        > timestamp.nanos)
}

/// Whether a message has expired at `now`.
pub fn is_expired_at(timestamp: PhysicalTimestamp, ttl_seconds: u32, now: PhysicalTimestamp) -> (r:
    bool)
    ensures
        r == expired_at(timestamp, ttl_seconds, now),
{
    let expiry = timestamp.secs as i128 + ttl_seconds as i128;
    let now_secs = now.secs as i128;
    now_secs > expiry || (now_secs == expiry && now.nanos > timestamp.nanos)
}

/// Counters of messaging activity; messages are counted by priority rank.
#[derive(Debug, Clone, Copy, PartialEq, Eq)]
pub struct CommunicationMetrics {
    /// Messages sent, by priority rank.
    pub messages_sent: [u64; 5],
    /// Messages received, by priority rank.
    pub messages_received: [u64; 5],
    /// Acknowledgments sent.
    pub acks_sent: u64,
    /// Acknowledgments received.
    pub acks_received: u64,
    /// Failed deliveries.
    pub failed_deliveries: u64,
    /// Expired messages.
    pub expired_messages: u64,
    /// Peak queue size.
    pub peak_queue_size: usize,
    /// Current queue size.
    pub current_queue_size: usize,
}

impl CommunicationMetrics {
    /// All counters at zero.
    pub fn new() -> (r: CommunicationMetrics)
        ensures
            r.messages_sent@ == seq![0u64, 0, 0, 0, 0],
            r.messages_received@ == seq![0u64, 0, 0, 0, 0],
            r.acks_sent == 0 && r.acks_received == 0 && r.failed_deliveries == 0
                && r.expired_messages == 0,
            r.peak_queue_size == 0 && r.current_queue_size == 0,
    {
        let r = CommunicationMetrics {
            messages_sent: [0u64; 5],
            messages_received: [0u64; 5],
            acks_sent: 0,
            acks_received: 0,
            failed_deliveries: 0,
            expired_messages: 0,
            peak_queue_size: 0,
            current_queue_size: 0,
        };
        assert(r.messages_sent@ =~= seq![0u64, 0, 0, 0, 0]);
        assert(r.messages_received@ =~= seq![0u64, 0, 0, 0, 0]);
        r
    }

    /// Count a message sent at a priority.
    pub fn record_sent(&mut self, priority: Priority)
        requires
            old(self).messages_sent@[priority_rank(priority)] < u64::MAX,
        ensures
            final(self).messages_sent@ == old(self).messages_sent@.update(
                priority_rank(priority),
                (old(self).messages_sent@[priority_rank(priority)] + 1) as u64,
            ),
            final(self).messages_received == old(self).messages_received,
            final(self).expired_messages == old(self).expired_messages,
    {
        let k = priority.rank();
        self.messages_sent[k] = self.messages_sent[k] + 1;
    }
}

/// What to do with an incoming message before any handler runs.
#[derive(Debug, Clone, PartialEq, Eq)]
pub enum IncomingDecision {
    /// Refuse the message with an error: its content hash does not match.
    Reject { details: String },
    /// Drop the message: it has expired.
    Expired,
    /// Hand the message to the handler registered under `handler_key`,
    /// first acknowledging delivery where `send_delivery_ack` says so.
    Dispatch { send_delivery_ack: bool, handler_key: String },
}

/// Decide on an incoming message, counting it: a message whose content hash
/// does not match is rejected; an expired one is counted as expired and
/// dropped; any other is counted as received at its priority and dispatched
/// to its handler, with a delivery acknowledgment unless delivery is best
/// effort.
pub fn decide_incoming(
    metrics: &mut CommunicationMetrics,
    integrity_ok: bool,
    expired: bool,
    priority: Priority,
    delivery_mode: DeliveryMode,
    kind: &MessageKind,
) -> (r: IncomingDecision)
    requires
        integrity_ok && expired ==> old(metrics).expired_messages < u64::MAX,
        integrity_ok && !expired ==> old(metrics).messages_received@[priority_rank(priority)]
            < u64::MAX,
    ensures
        !integrity_ok ==> (r matches IncomingDecision::Reject { details } && details@
            == "Message integrity verification failed"@ && *final(metrics) == *old(metrics)),
        integrity_ok && expired ==> r == IncomingDecision::Expired && *final(metrics) == (
        CommunicationMetrics { expired_messages: (old(metrics).expired_messages + 1) as u64, ..*old(metrics) }),
        integrity_ok && !expired ==> {
            &&& r is Dispatch
            &&& r->send_delivery_ack == (delivery_mode != DeliveryMode::BestEffort)
            &&& r->handler_key@ == handler_key_of(*kind)
            &&& final(metrics).messages_received@ == old(metrics).messages_received@.update(
                priority_rank(priority),
                (old(metrics).messages_received@[priority_rank(priority)] + 1) as u64,
            )
            &&& *final(metrics) == (CommunicationMetrics {
                messages_received: final(metrics).messages_received,
                ..*old(metrics)
            })
        },
{
    if !integrity_ok {
        return IncomingDecision::Reject {
            details: "Message integrity verification failed".to_owned(),
        };
    }
    if expired {
        metrics.expired_messages = metrics.expired_messages + 1;
        return IncomingDecision::Expired;
    }
    let k = priority.rank();
    metrics.messages_received[k] = metrics.messages_received[k] + 1;
    let send_delivery_ack = match delivery_mode {
        DeliveryMode::BestEffort => false,
        _ => true,
    };
    IncomingDecision::Dispatch { send_delivery_ack, handler_key: handler_key(kind) }
}

/// How a message handler ended.
#[derive(Debug, Clone, Copy, PartialEq, Eq, Structural)]
pub enum HandlerOutcome {
    /// It produced a response message.
    Responded,
    /// It produced no response.
    NoResponse,
    /// It failed.
    Failed,
}

/// What to do after a handler ran, or found none.
#[derive(Debug, Clone, Copy, PartialEq, Eq, Structural)]
pub enum FollowUp {
    /// Nothing more.
    Nothing,
    /// Send the response back to the sender with this priority and mode.
    SendResponse { priority: Priority, delivery_mode: DeliveryMode },
    /// Send a `Failed` acknowledgment carrying the handler's error.
    SendFailedAck,
}

/// Decide what follows a handler: a response goes back to the sender at
/// normal priority and best effort; a failure is acknowledged as failed
/// where the sender asked for processing or result acknowledgment; nothing
/// else follows, and nothing at all where no handler was registered.
pub fn decide_after_handler(
    handler_found: bool,
    outcome: HandlerOutcome,
    delivery_mode: DeliveryMode,
) -> (r: FollowUp)
    ensures
        r == (if !handler_found {
            FollowUp::Nothing
        } else {
            match outcome {
                HandlerOutcome::Responded => FollowUp::SendResponse {
                    priority: Priority::Normal,
                    delivery_mode: DeliveryMode::BestEffort,
                },
                HandlerOutcome::NoResponse => FollowUp::Nothing,
                HandlerOutcome::Failed => if delivery_mode == DeliveryMode::ReliableProcessing
                    || delivery_mode == DeliveryMode::ReliableResult {
                    FollowUp::SendFailedAck
                } else {
                    FollowUp::Nothing
                },
            }
        }),
{
    if !handler_found {
        return FollowUp::Nothing;
    }
    match outcome {
        HandlerOutcome::Responded => FollowUp::SendResponse {
            priority: Priority::Normal,
            delivery_mode: DeliveryMode::BestEffort,
        },
        HandlerOutcome::NoResponse => FollowUp::Nothing,
        HandlerOutcome::Failed => match delivery_mode {
            DeliveryMode::ReliableProcessing | DeliveryMode::ReliableResult => FollowUp::SendFailedAck,
            _ => FollowUp::Nothing,
        },
    }
}

/// The `Failed` acknowledgments sent to every pending sender when the
/// manager stops, at time `now`.
pub fn stop_acks(pending: &Vec<MessageId>, now: PhysicalTimestamp) -> (r: Vec<MessageAck>)
    ensures
        r@.len() == pending@.len(),
        forall|i: int|
            0 <= i < r@.len() ==> {
                &&& (#[trigger] r@[i]).message_id == pending@[i]
                &&& r@[i].ack_type == AckType::Failed
                &&& r@[i].timestamp == now
                &&& r@[i].error matches Some(e) && e@ == "Communication manager stopped"@
            },
{
    let mut out: Vec<MessageAck> = Vec::new();
    let mut i: usize = 0;
    while i < pending.len()
        invariant
            i <= pending@.len(),
            out@.len() == i,
            forall|j: int|
                0 <= j < i ==> {
                    &&& (#[trigger] out@[j]).message_id == pending@[j]
                    &&& out@[j].ack_type == AckType::Failed
                    &&& out@[j].timestamp == now
                    &&& out@[j].error matches Some(e) && e@ == "Communication manager stopped"@
                },
        decreases pending@.len() - i,
    {
        out.push(
            MessageAck {
                message_id: pending[i],
                ack_type: AckType::Failed,
                timestamp: now,
                error: Some("Communication manager stopped".to_owned()),
            },
        );
        i = i + 1;
    }
    out
}

/// The reply to a ping.
#[derive(Debug, Clone, Copy, PartialEq, Eq, Structural)]
pub struct PongReply {
    /// When the ping was sent.
    pub original_timestamp: PhysicalTimestamp,
    /// When the reply is made.
    pub response_timestamp: PhysicalTimestamp,
    /// The ping's sequence number.
    pub sequence: u64,
}

/// Handler for health-check pings.
#[derive(Debug, Clone, Copy)]
pub struct PingHandler;

impl PingHandler {
    /// Reply at time `now` to a message: a ping, given by its timestamp and
    /// sequence number, gets a pong echoing both; any other message none.
    pub fn reply_at(&self, ping: Option<(PhysicalTimestamp, u64)>, now: PhysicalTimestamp) -> (r:
        Option<PongReply>)
        ensures
            r == (match ping {
                Some((t, s)) => Some(
                    PongReply { original_timestamp: t, response_timestamp: now, sequence: s },
                ),
                None => None,
            }),
    {
        match ping {
            Some((t, s)) => Some(
                PongReply { original_timestamp: t, response_timestamp: now, sequence: s },
            ),
            None => None,
        }
    }

    /// Reply to a message now.
    pub fn reply(&self, ping: Option<(PhysicalTimestamp, u64)>) -> (r: Option<PongReply>)
        ensures
            match ping {
                Some((t, s)) => r matches Some(p) && p.original_timestamp == t && p.sequence == s,
                None => r is None,
            },
    {
        self.reply_at(ping, PhysicalTimestamp::now())
    }
}

} // verus!
