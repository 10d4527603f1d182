//! The plain data of agent consensus: node identities and states, the
//! commands agents agree on, hashed log entries, configuration and errors.
use crate::cas::integrity::{blake3_digest, compute_checksum, BlockHash};
use crate::crdt::PhysicalTimestamp;
use vstd::prelude::*;

verus! {

broadcast use vstd::array::group_array_axioms;

/// Identifier of a consensus node: the 128-bit value of a UUID.
#[derive(Debug, Clone, Copy, PartialEq, Eq, Structural, Hash, PartialOrd, Ord)]
pub struct NodeId(pub u128);

impl NodeId {
    /// A new random id: a fresh version-4 UUID.
    pub fn new() -> (r: NodeId)
        ensures
            crate::ident::is_v4_uuid(r.0),
    {
        NodeId(crate::ident::random_uuid())
    }

    /// The node id of a UUID, given by its 128-bit value.
    pub fn from_uuid(uuid: u128) -> (r: NodeId)
        ensures
            r.0 == uuid,
    {
        NodeId(uuid)
    }

    /// The hyphenated text of the node's UUID.
    pub fn to_string(&self) -> (r: String)
        ensures
            r@ == crate::ident::uuid_text(self.0),
    {
        crate::ident::format_uuid(self.0)
    }
}

/// State of a node in the consensus protocol.
#[derive(Debug, Clone, Copy, PartialEq, Eq, Structural)]
pub enum NodeState {
    Follower,
    Candidate,
    Leader,
}

/// A consensus term.
pub type Term = u64;

/// A position in the replicated log.
pub type LogIndex = u64;

/// Status of an agent as recorded by consensus.
#[derive(Debug, Clone, PartialEq, Eq)]
pub enum AgentStatus {
    Online,
    Busy,
    Offline,
    Error(String),
}

/// Type of an agent.
#[derive(Debug, Clone, PartialEq, Eq)]
pub enum AgentType {
    /// Technical decisions.
    CTO,
    /// Requirements and strategy.
    PM,
    /// Testing and validation.
    QA,
    /// Implementation.
    Dev,
    /// Deployment and monitoring.
    Ops,
    /// Any other type.
    Custom(String),
}

/// A command agents agree on through consensus.
#[derive(Debug, Clone, PartialEq, Eq)]
pub enum AgentCommand {
    AssignTask { agent_id: NodeId, task_id: String, task_data: Vec<u8>, priority: u8 },
    UpdateStatus { agent_id: NodeId, status: AgentStatus, metadata: Vec<(String, String)> },
    RegisterAgent { agent_id: NodeId, agent_type: AgentType, capabilities: Vec<String> },
    UnregisterAgent { agent_id: NodeId, reason: String },
    /// Set a configuration key to a JSON value, given as its text.
    UpdateConfig { key: String, value: String },
    Custom { command_type: String, payload: Vec<u8> },
}

/// An entry of the replicated log, with the hash of its encoding.
#[derive(Debug, Clone)]
pub struct LogEntry {
    pub term: Term,
    pub index: LogIndex,
    pub command: AgentCommand,
    pub timestamp: PhysicalTimestamp,
    pub origin: NodeId,
    /// BLAKE3 hash of the encoding of (term, index, command, timestamp, origin).
    pub hash: BlockHash,
}

impl LogEntry {
    /// A log entry made at `timestamp`; `encoded` is the encoding of
    /// (term, index, command, timestamp, origin), whose hash the entry keeps.
    pub fn new_at(
        term: Term,
        index: LogIndex,
        command: AgentCommand,
        origin: NodeId,
        timestamp: PhysicalTimestamp,
        encoded: &[u8],
    ) -> (r: LogEntry)
        ensures
            r.term == term,
            r.index == index,
            r.command == command,
            r.origin == origin,
            r.timestamp == timestamp,
            r.hash@ == blake3_digest(encoded@),
    {
        LogEntry { term, index, command, timestamp, origin, hash: compute_checksum(encoded) }
    }

    /// Whether `encoded`, the entry's encoding, matches its hash.
    pub fn verify_hash(&self, encoded: &[u8]) -> (r: bool)
        ensures
            r == (blake3_digest(encoded@) == self.hash@),
    {
        let h = compute_checksum(encoded);
        let mut i: usize = 0;
        while i < 32
            invariant
                i <= 32,
                h@ == blake3_digest(encoded@),
                forall|j: int| 0 <= j < i ==> h@[j] == self.hash@[j],
            decreases 32 - i,
        {
            if h[i] != self.hash[i] {
                assert(h@[i as int] != self.hash@[i as int]);
                return false;
            }
            i = i + 1;
        }
        assert(h@ =~= self.hash@);
        true
    }
}

/// Timing and batching parameters of consensus.
#[derive(Debug, Clone, Copy)]
pub struct ConsensusConfig {
    /// Range of election timeouts, in milliseconds.
    pub election_timeout_ms: (u64, u64),
    pub heartbeat_interval_ms: u64,
    pub max_entries_per_message: usize,
    /// Log length after which a snapshot is taken.
    pub snapshot_threshold: LogIndex,
    pub vote_timeout_ms: u64,
    pub rpc_timeout_ms: u64,
}

impl Default for ConsensusConfig {
    fn default() -> (r: ConsensusConfig)
        ensures
            r == (ConsensusConfig {
                election_timeout_ms: (150, 300),
                heartbeat_interval_ms: 50,
                max_entries_per_message: 100,
                snapshot_threshold: 10000,
                vote_timeout_ms: 1000,
                rpc_timeout_ms: 5000,
            }),
    {
        ConsensusConfig {
            election_timeout_ms: (150, 300),
            heartbeat_interval_ms: 50,
            max_entries_per_message: 100,
            snapshot_threshold: 10000,
            vote_timeout_ms: 1000,
            rpc_timeout_ms: 5000,
        }
    }
}

/// Errors of consensus operations.
#[derive(Debug, Clone, PartialEq, Eq)]
pub enum ConsensusError {
    NotLeader,
    ElectionTimeout,
    LogInconsistency { expected: LogIndex, actual: LogIndex },
    InvalidTerm { current: Term, received: Term },
    Storage(String),
    Network(String),
    /// Serialization failed, with its message.
    Serialization(String),
    Timeout { timeout_ms: u64 },
    NodeNotFound { node_id: NodeId },
    ClusterNotReady { ready_nodes: usize, total_nodes: usize },
}

/// Result of a consensus operation.
pub type ConsensusResult<T> = Result<T, ConsensusError>;

/// Builder of a consensus node: its id, configuration and initial cluster.
#[derive(Debug, Clone)]
pub struct ConsensusBuilder {
    pub node_id: NodeId,
    pub config: ConsensusConfig,
    pub initial_cluster: Vec<NodeId>,
}

impl ConsensusBuilder {
    /// A builder for a node, with the default configuration and no cluster.
    pub fn new(node_id: NodeId) -> (r: ConsensusBuilder)
        ensures
            r.node_id == node_id,
            r.initial_cluster@.len() == 0,
            r.config == (ConsensusConfig {
                election_timeout_ms: (150, 300),
                heartbeat_interval_ms: 50,
                max_entries_per_message: 100,
                snapshot_threshold: 10000,
                vote_timeout_ms: 1000,
                rpc_timeout_ms: 5000,
            }),
    {
        ConsensusBuilder { node_id, config: ConsensusConfig::default(), initial_cluster: Vec::new() }
    }

    /// Use this configuration.
    pub fn config(self, config: ConsensusConfig) -> (r: ConsensusBuilder)
        ensures
            r.node_id == self.node_id,
            r.config == config,
            r.initial_cluster@ == self.initial_cluster@,
    {
        ConsensusBuilder { config, ..self }
    }

    /// Start from these cluster nodes.
    pub fn cluster_nodes(self, nodes: Vec<NodeId>) -> (r: ConsensusBuilder)
        ensures
            r.node_id == self.node_id,
            r.config == self.config,
            r.initial_cluster@ == nodes@,
    {
        ConsensusBuilder { initial_cluster: nodes, ..self }
    }
}

} // verus!
