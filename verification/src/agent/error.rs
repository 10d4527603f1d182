//! Errors of the PRISM core, by subsystem, with conversions into the
//! top-level error.
use crate::text::{decimal_string, decimal_text};
use vstd::prelude::*;
use vstd::string::StringExecFns;

verus! {

/// Top-level error of PRISM operations.
#[derive(Debug, Clone, PartialEq, Eq)]
pub enum PrismError {
    /// A network error.
    Network(NetworkError),
    /// A storage error.
    Storage(StorageError),
    /// A consensus error.
    Consensus(ConsensusError),
    /// A CRDT error.
    Crdt(CrdtError),
    /// An agent failed, with the message of its error.
    Agent { message: String },
    /// The configuration is invalid.
    Configuration { message: String },
    /// Authentication failed.
    Authentication { message: String },
    /// Serialization failed.
    Serialization(SerializationError),
    /// An operation timed out.
    Timeout { timeout_ms: u64 },
    /// Input failed validation.
    Validation { message: String },
}

/// Errors of the network layer.
#[derive(Debug, Clone, PartialEq, Eq)]
pub enum NetworkError {
    ConnectionFailed { peer_id: String, reason: String },
    NetworkPartition { details: String },
    DiscoveryFailed { reason: String },
    RoutingFailed { destination: String },
    Protocol { message: String },
    BandwidthLimit { current_mbps: u32, limit_mbps: u32 },
}

/// Errors of the storage layer.
#[derive(Debug, Clone, PartialEq, Eq)]
pub enum StorageError {
    BlockNotFound { hash: String },
    Corruption { details: String },
    StorageFull { used_bytes: u64, capacity_bytes: u64 },
    IndexCorruption { reason: String },
    IntegrityCheckFailed { expected: String, actual: String },
    /// The database failed, with its message.
    Database(String),
}

/// Errors of the consensus layer.
#[derive(Debug, Clone, PartialEq, Eq)]
pub enum ConsensusError {
    NoQuorum { required: usize, available: usize },
    ByzantineBehavior { node_id: String },
    ConsensusTimeout { timeout_ms: u64 },
    InvalidProposal { reason: String },
    ViewChangeFailed { reason: String },
    LeaderElectionFailed { reason: String },
}

/// Errors of CRDT handling.
#[derive(Debug, Clone, PartialEq, Eq)]
pub enum CrdtError {
    MergeConflict { details: String },
    InvalidOperation { operation: String },
    ClockSkew { local_time: u64, remote_time: u64 },
    CausalityViolation { operation_id: String },
}

/// Errors of (de)serialization, each with the message of the codec's error.
#[derive(Debug, Clone, PartialEq, Eq)]
pub enum SerializationError {
    Json(String),
    MessagePack(String),
    MessagePackDecode(String),
    Bincode(String),
}

/// Result of a PRISM operation.
pub type PrismResult<T> = Result<T, PrismError>;

impl From<NetworkError> for PrismError {
    fn from(e: NetworkError) -> (r: PrismError) {
        PrismError::Network(e)
    }
}

impl vstd::std_specs::convert::FromSpecImpl<NetworkError> for PrismError {
    open spec fn obeys_from_spec() -> bool {
        true
    }

    open spec fn from_spec(e: NetworkError) -> PrismError {
        PrismError::Network(e)
    }
}

impl From<StorageError> for PrismError {
    fn from(e: StorageError) -> (r: PrismError) {
        PrismError::Storage(e)
    }
}

impl vstd::std_specs::convert::FromSpecImpl<StorageError> for PrismError {
    open spec fn obeys_from_spec() -> bool {
        true
    }

    open spec fn from_spec(e: StorageError) -> PrismError {
        PrismError::Storage(e)
    }
}

impl From<ConsensusError> for PrismError {
    fn from(e: ConsensusError) -> (r: PrismError) {
        PrismError::Consensus(e)
    }
}

impl vstd::std_specs::convert::FromSpecImpl<ConsensusError> for PrismError {
    open spec fn obeys_from_spec() -> bool {
        true
    }

    open spec fn from_spec(e: ConsensusError) -> PrismError {
        PrismError::Consensus(e)
    }
}

impl From<CrdtError> for PrismError {
    fn from(e: CrdtError) -> (r: PrismError) {
        PrismError::Crdt(e)
    }
}

impl vstd::std_specs::convert::FromSpecImpl<CrdtError> for PrismError {
    open spec fn obeys_from_spec() -> bool {
        true
    }

    open spec fn from_spec(e: CrdtError) -> PrismError {
        PrismError::Crdt(e)
    }
}

impl From<SerializationError> for PrismError {
    fn from(e: SerializationError) -> (r: PrismError) {
        PrismError::Serialization(e)
    }
}

impl vstd::std_specs::convert::FromSpecImpl<SerializationError> for PrismError {
    open spec fn obeys_from_spec() -> bool {
        true
    }

    open spec fn from_spec(e: SerializationError) -> PrismError {
        PrismError::Serialization(e)
    }
}

/// A configuration error with a message.
pub fn config_error(message: &str) -> (r: PrismError)
    ensures
        r matches PrismError::Configuration { message: m } && m@ == message@,
{
    PrismError::Configuration { message: message.to_owned() }
}

/// A validation error with a message.
pub fn validation_error(message: &str) -> (r: PrismError)
    ensures
        r matches PrismError::Validation { message: m } && m@ == message@,
{
    PrismError::Validation { message: message.to_owned() }
}

/// The message of a network error.
pub open spec fn network_error_text(e: NetworkError) -> Seq<char> {
    match e {
        NetworkError::ConnectionFailed { peer_id, reason } => "Connection failed to peer "@ + peer_id@
            + ": "@ + reason@,
        NetworkError::NetworkPartition { details } => "Network partition detected: "@ + details@,
        NetworkError::DiscoveryFailed { reason } => "Peer discovery failed: "@ + reason@,
        NetworkError::RoutingFailed { destination } => "Message routing failed: "@ + destination@
            + " unreachable"@,
        NetworkError::Protocol { message } => "Protocol error: "@ + message@,
        NetworkError::BandwidthLimit { current_mbps, limit_mbps } => "Bandwidth limit exceeded: "@
            + decimal_text(current_mbps as nat) + "Mbps > "@ + decimal_text(limit_mbps as nat)
            + "Mbps"@,
    }
}

/// The message of a storage error.
pub open spec fn storage_error_text(e: StorageError) -> Seq<char> {
    match e {
        StorageError::BlockNotFound { hash } => "Block not found: hash "@ + hash@,
        StorageError::Corruption { details } => "Storage corruption detected: "@ + details@,
        StorageError::StorageFull { used_bytes, capacity_bytes } => "Storage full: "@ + decimal_text(
            used_bytes as nat,
        ) + " / "@ + decimal_text(capacity_bytes as nat) + " bytes"@,
        StorageError::IndexCorruption { reason } => "Index corruption: "@ + reason@,
        StorageError::IntegrityCheckFailed { expected, actual } => "Integrity check failed: expected "@
            + expected@ + ", got "@ + actual@,
        StorageError::Database(m) => "Database error: "@ + m@,
    }
}

/// The message of a consensus error.
pub open spec fn consensus_error_text(e: ConsensusError) -> Seq<char> {
    match e {
        ConsensusError::NoQuorum { required, available } => "No quorum: need "@ + decimal_text(
            required as nat,
        ) + " nodes, have "@ + decimal_text(available as nat),
        ConsensusError::ByzantineBehavior { node_id } => "Byzantine behavior detected from node "@
            + node_id@,
        ConsensusError::ConsensusTimeout { timeout_ms } => "Consensus timeout: no agreement after "@
            + decimal_text(timeout_ms as nat) + "ms"@,
        ConsensusError::InvalidProposal { reason } => "Invalid proposal: "@ + reason@,
        ConsensusError::ViewChangeFailed { reason } => "View change failed: "@ + reason@,
        ConsensusError::LeaderElectionFailed { reason } => "Leader election failed: "@ + reason@,
    }
}

/// The message of a CRDT error.
pub open spec fn crdt_error_text(e: CrdtError) -> Seq<char> {
    match e {
        CrdtError::MergeConflict { details } => "Merge conflict: "@ + details@,
        CrdtError::InvalidOperation { operation } => "Invalid operation: "@ + operation@
            + " not applicable to current state"@,
        CrdtError::ClockSkew { local_time, remote_time } => "Clock skew detected: local="@
            + decimal_text(local_time as nat) + ", remote="@ + decimal_text(remote_time as nat),
        CrdtError::CausalityViolation { operation_id } => "Causality violation: operation "@
            + operation_id@ + " depends on missing operation"@,
    }
}

/// The message of a serialization error.
pub open spec fn serialization_error_text(e: SerializationError) -> Seq<char> {
    match e {
        SerializationError::Json(m) => "JSON error: "@ + m@,
        SerializationError::MessagePack(m) => "MessagePack error: "@ + m@,
        SerializationError::MessagePackDecode(m) => "MessagePack decode error: "@ + m@,
        SerializationError::Bincode(m) => "Bincode error: "@ + m@,
    }
}

/// The message of a PRISM error.
pub open spec fn prism_error_text(e: PrismError) -> Seq<char> {
    match e {
        PrismError::Network(n) => "Network error: "@ + network_error_text(n),
        PrismError::Storage(s) => "Storage error: "@ + storage_error_text(s),
        PrismError::Consensus(c) => "Consensus error: "@ + consensus_error_text(c),
        PrismError::Crdt(c) => "CRDT error: "@ + crdt_error_text(c),
        PrismError::Agent { message } => "Agent error: "@ + message@,
        PrismError::Configuration { message } => "Configuration error: "@ + message@,
        PrismError::Authentication { message } => "Authentication error: "@ + message@,
        PrismError::Serialization(s) => "Serialization error: "@ + serialization_error_text(s),
        PrismError::Timeout { timeout_ms } => "Timeout error: operation timed out after "@
            + decimal_text(timeout_ms as nat) + "ms"@,
        PrismError::Validation { message } => "Validation error: "@ + message@,
    }
}

impl NetworkError {
    /// The error's message.
    pub fn to_string(&self) -> (r: String)
        ensures
            r@ == network_error_text(*self),
    {
        match self {
            NetworkError::ConnectionFailed { peer_id, reason } => String::from_str(
                "Connection failed to peer ",
            ).concat(peer_id.as_str()).concat(": ").concat(reason.as_str()),
            NetworkError::NetworkPartition { details } => String::from_str(
                "Network partition detected: ",
            ).concat(details.as_str()),
            NetworkError::DiscoveryFailed { reason } => String::from_str(
                "Peer discovery failed: ",
            ).concat(reason.as_str()),
            NetworkError::RoutingFailed { destination } => String::from_str(
                "Message routing failed: ",
            ).concat(destination.as_str()).concat(" unreachable"),
            NetworkError::Protocol { message } => String::from_str("Protocol error: ").concat(
                message.as_str(),
            ),
            NetworkError::BandwidthLimit { current_mbps, limit_mbps } => String::from_str(
                "Bandwidth limit exceeded: ",
            ).concat(decimal_string(*current_mbps as u64).as_str()).concat("Mbps > ").concat(
                decimal_string(*limit_mbps as u64).as_str(),
            ).concat("Mbps"),
        }
    }
}

impl StorageError {
    /// The error's message.
    pub fn to_string(&self) -> (r: String)
        ensures
            r@ == storage_error_text(*self),
    {
        match self {
            StorageError::BlockNotFound { hash } => String::from_str("Block not found: hash ").concat(
                hash.as_str(),
            ),
            StorageError::Corruption { details } => String::from_str(
                "Storage corruption detected: ",
            ).concat(details.as_str()),
            StorageError::StorageFull { used_bytes, capacity_bytes } => String::from_str(
                "Storage full: ",
            ).concat(decimal_string(*used_bytes).as_str()).concat(" / ").concat(
                decimal_string(*capacity_bytes).as_str(),
            ).concat(" bytes"),
            StorageError::IndexCorruption { reason } => String::from_str("Index corruption: ").concat(
                reason.as_str(),
            ),
            StorageError::IntegrityCheckFailed { expected, actual } => String::from_str(
                "Integrity check failed: expected ",
            ).concat(expected.as_str()).concat(", got ").concat(actual.as_str()),
            StorageError::Database(m) => String::from_str("Database error: ").concat(m.as_str()),
        }
    }
}

impl ConsensusError {
    /// The error's message.
    pub fn to_string(&self) -> (r: String)
        ensures
            r@ == consensus_error_text(*self),
    {
        match self {
            ConsensusError::NoQuorum { required, available } => String::from_str(
                "No quorum: need ",
            ).concat(decimal_string(*required as u64).as_str()).concat(" nodes, have ").concat(
                decimal_string(*available as u64).as_str(),
            ),
            ConsensusError::ByzantineBehavior { node_id } => String::from_str(
                "Byzantine behavior detected from node ",
            ).concat(node_id.as_str()),
            ConsensusError::ConsensusTimeout { timeout_ms } => String::from_str(
                "Consensus timeout: no agreement after ",
            ).concat(decimal_string(*timeout_ms).as_str()).concat("ms"),
            ConsensusError::InvalidProposal { reason } => String::from_str(
                "Invalid proposal: ",
            ).concat(reason.as_str()),
            ConsensusError::ViewChangeFailed { reason } => String::from_str(
                "View change failed: ",
            ).concat(reason.as_str()),
            ConsensusError::LeaderElectionFailed { reason } => String::from_str(
                "Leader election failed: ",
            ).concat(reason.as_str()),
        }
    }
}

impl CrdtError {
    /// The error's message.
    pub fn to_string(&self) -> (r: String)
        ensures
            r@ == crdt_error_text(*self),
    {
        match self {
            CrdtError::MergeConflict { details } => String::from_str("Merge conflict: ").concat(
                details.as_str(),
            ),
            CrdtError::InvalidOperation { operation } => String::from_str(
                "Invalid operation: ",
            ).concat(operation.as_str()).concat(" not applicable to current state"),
            CrdtError::ClockSkew { local_time, remote_time } => String::from_str(
                "Clock skew detected: local=",
            ).concat(decimal_string(*local_time).as_str()).concat(", remote=").concat(
                decimal_string(*remote_time).as_str(),
            ),
            CrdtError::CausalityViolation { operation_id } => String::from_str(
                "Causality violation: operation ",
            ).concat(operation_id.as_str()).concat(" depends on missing operation"),
        }
    }
}

impl SerializationError {
    /// The error's message.
    pub fn to_string(&self) -> (r: String)
        ensures
            r@ == serialization_error_text(*self),
    {
        match self {
            SerializationError::Json(m) => String::from_str("JSON error: ").concat(m.as_str()),
            SerializationError::MessagePack(m) => String::from_str("MessagePack error: ").concat(
                m.as_str(),
            ),
            SerializationError::MessagePackDecode(m) => String::from_str(
                "MessagePack decode error: ",
            ).concat(m.as_str()),
            SerializationError::Bincode(m) => String::from_str("Bincode error: ").concat(m.as_str()),
        }
    }
}

impl PrismError {
    /// The error's message, with the message of a subsystem's error after
    /// the subsystem's name.
    pub fn to_string(&self) -> (r: String)
        ensures
            r@ == prism_error_text(*self),
    {
        match self {
            PrismError::Network(n) => String::from_str("Network error: ").concat(
                n.to_string().as_str(),
            ),
            PrismError::Storage(e) => String::from_str("Storage error: ").concat(
                e.to_string().as_str(),
            ),
            PrismError::Consensus(c) => String::from_str("Consensus error: ").concat(
                c.to_string().as_str(),
            ),
            PrismError::Crdt(c) => String::from_str("CRDT error: ").concat(c.to_string().as_str()),
            PrismError::Agent { message } => String::from_str("Agent error: ").concat(
                message.as_str(),
            ),
            PrismError::Configuration { message } => String::from_str(
                "Configuration error: ",
            ).concat(message.as_str()),
            PrismError::Authentication { message } => String::from_str(
                "Authentication error: ",
            ).concat(message.as_str()),
            PrismError::Serialization(e) => String::from_str("Serialization error: ").concat(
                e.to_string().as_str(),
            ),
            PrismError::Timeout { timeout_ms } => String::from_str(
                "Timeout error: operation timed out after ",
            ).concat(decimal_string(*timeout_ms).as_str()).concat("ms"),
            PrismError::Validation { message } => String::from_str("Validation error: ").concat(
                message.as_str(),
            ),
        }
    }
}

} // verus!
