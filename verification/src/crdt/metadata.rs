//! Bookkeeping around CRDT instances: errors, metadata with a version vector,
//! containers pairing a CRDT with its metadata, and operation statistics.
use crate::cas::integrity::{blake3_digest, compute_checksum, BlockHash};
use crate::crdt::clock_map::{get0, join};
use crate::crdt::vector_clock::VectorClock;
use crate::crdt::{phys_lt, PhysicalTimestamp, ReplicaId, CRDT};
use vstd::prelude::*;

verus! {

/// Errors of CRDT operations.
#[derive(Debug, Clone, PartialEq, Eq)]
pub enum CRDTError {
    /// The operation is not valid here.
    InvalidOperation { reason: String },
    /// A precondition of the operation does not hold.
    PreconditionFailed { condition: String },
    /// Binary (de)serialization failed, with its message.
    Serialization(String),
    /// JSON (de)serialization failed, with its message.
    Json(String),
    /// Timestamps were out of order.
    TimestampViolation,
    /// A replica is not known.
    UnknownReplica { replica_id: ReplicaId },
    /// Synchronization over the network failed.
    SyncFailed { reason: String },
    /// A content hash did not match.
    HashMismatch,
    /// An invariant of a CRDT was violated.
    InvariantViolation { invariant: String },
}

/// Result of a CRDT operation.
pub type CRDTResult<T> = Result<T, CRDTError>;

/// Metadata about a CRDT state.
pub struct CRDTMetadata {
    /// When this state was created.
    pub created_at: PhysicalTimestamp,
    /// When it was last modified.
    pub modified_at: PhysicalTimestamp,
    /// Replica that last modified it.
    pub modified_by: ReplicaId,
    /// Version vector for causality tracking.
    pub version: VectorClock,
    /// Content hash of the state's encoding, once known.
    pub content_hash: Option<BlockHash>,
    /// Size of the state in bytes.
    pub size_bytes: usize,
    /// Operations since creation.
    pub operation_count: u64,
}

impl CRDTMetadata {
    /// Metadata for a state created now by a replica.
    pub fn new(replica_id: ReplicaId) -> (r: CRDTMetadata)
        ensures
            r.created_at == r.modified_at,
            r.modified_by == replica_id,
            r.version@ == Map::<u128, u64>::empty(),
            r.content_hash is None,
            r.size_bytes == 0,
            r.operation_count == 0,
    {
        Self::new_at(replica_id, PhysicalTimestamp::now())
    }

    /// Metadata for a state created at time `now` by a replica.
    pub fn new_at(replica_id: ReplicaId, now: PhysicalTimestamp) -> (r: CRDTMetadata)
        ensures
            r.created_at == now,
            r.modified_at == now,
            r.modified_by == replica_id,
            r.version@ == Map::<u128, u64>::empty(),
            r.content_hash is None,
            r.size_bytes == 0,
            r.operation_count == 0,
    {
        CRDTMetadata {
            created_at: now,
            modified_at: now,
            modified_by: replica_id,
            version: VectorClock::new(),
            content_hash: None,
            size_bytes: 0,
            operation_count: 0,
        }
    }

    /// Record an operation by a replica, now.
    pub fn update_after_operation(&mut self, replica_id: ReplicaId, size_bytes: usize)
        requires
            get0(old(self).version@, replica_id.0) < u64::MAX,
            old(self).operation_count < u64::MAX,
        ensures
            final(self).modified_by == replica_id,
            final(self).version@ == old(self).version@.insert(
                replica_id.0,
                (get0(old(self).version@, replica_id.0) + 1) as u64,
            ),
            final(self).size_bytes == size_bytes,
            final(self).operation_count == old(self).operation_count + 1,
            final(self).created_at == old(self).created_at,
            final(self).content_hash == old(self).content_hash,
    {
        let now = PhysicalTimestamp::now();
        self.update_after_operation_at(replica_id, size_bytes, now);
    }

    /// Record an operation by a replica at time `now`.
    pub fn update_after_operation_at(
        &mut self,
        replica_id: ReplicaId,
        size_bytes: usize,
        now: PhysicalTimestamp,
    )
        requires
            get0(old(self).version@, replica_id.0) < u64::MAX,
            old(self).operation_count < u64::MAX,
        ensures
            final(self).modified_at == now,
            final(self).modified_by == replica_id,
            final(self).version@ == old(self).version@.insert(
                replica_id.0,
                (get0(old(self).version@, replica_id.0) + 1) as u64,
            ),
            final(self).size_bytes == size_bytes,
            final(self).operation_count == old(self).operation_count + 1,
            final(self).created_at == old(self).created_at,
            final(self).content_hash == old(self).content_hash,
    {
        self.modified_at = now;
        self.modified_by = replica_id;
        self.version.increment(replica_id);
        self.size_bytes = size_bytes;
        self.operation_count = self.operation_count + 1;
    }

    /// Merge metadata from a remote replica: the later modification wins,
    /// version vectors are joined, and the larger operation count is kept.
    pub fn merge(&mut self, other: &CRDTMetadata)
        ensures
            phys_lt(old(self).modified_at, other.modified_at) ==> final(self).modified_at
                == other.modified_at && final(self).modified_by == other.modified_by,
            !phys_lt(old(self).modified_at, other.modified_at) ==> final(self).modified_at
                == old(self).modified_at && final(self).modified_by == old(self).modified_by,
            final(self).version@ == join(old(self).version@, other.version@),
            final(self).operation_count == (if old(self).operation_count >= other.operation_count {
                old(self).operation_count
            } else {
                other.operation_count
            }),
            final(self).created_at == old(self).created_at,
            final(self).size_bytes == old(self).size_bytes,
            final(self).content_hash == old(self).content_hash,
    {
        if self.modified_at.before(&other.modified_at) {
            self.modified_at = other.modified_at;
            self.modified_by = other.modified_by;
        }
        self.version.update(&other.version);
        if other.operation_count > self.operation_count {
            self.operation_count = other.operation_count;
        }
    }
}

/// A CRDT with its metadata.
pub struct CRDTContainer<T: CRDT> {
    /// The CRDT.
    pub crdt: T,
    /// Its metadata.
    pub metadata: CRDTMetadata,
}

impl<T: CRDT> CRDTContainer<T> {
    /// Wrap a CRDT created by a replica; `encoded_state` is the CRDT's
    /// serialized state, whose BLAKE3 hash becomes the content hash.
    pub fn new(crdt: T, replica_id: ReplicaId, encoded_state: &[u8]) -> (r: CRDTContainer<T>)
        ensures
            r.crdt == crdt,
            r.metadata.modified_by == replica_id,
            r.metadata.version@ == Map::<u128, u64>::empty(),
            r.metadata.operation_count == 0,
            r.metadata.content_hash matches Some(h) && h@ == blake3_digest(encoded_state@),
            r.metadata.size_bytes == encoded_state@.len(),
    {
        let mut metadata = CRDTMetadata::new(replica_id);
        metadata.content_hash = Some(compute_checksum(encoded_state));
        metadata.size_bytes = encoded_state.len();
        CRDTContainer { crdt, metadata }
    }

    /// Record a local operation by a replica; `encoded_state` is the CRDT's
    /// serialized state after the operation.
    pub fn after_operation(&mut self, replica_id: ReplicaId, encoded_state: &[u8])
        requires
            get0(old(self).metadata.version@, replica_id.0) < u64::MAX,
            old(self).metadata.operation_count < u64::MAX,
        ensures
            final(self).crdt == old(self).crdt,
            final(self).metadata.modified_by == replica_id,
            final(self).metadata.version@ == old(self).metadata.version@.insert(
                replica_id.0,
                (get0(old(self).metadata.version@, replica_id.0) + 1) as u64,
            ),
            final(self).metadata.operation_count == old(self).metadata.operation_count + 1,
            final(self).metadata.content_hash matches Some(h) && h@ == blake3_digest(
                encoded_state@,
            ),
            final(self).metadata.size_bytes == encoded_state@.len(),
    {
        self.metadata.content_hash = Some(compute_checksum(encoded_state));
        let size = encoded_state.len();
        self.metadata.update_after_operation(replica_id, size);
    }

    /// Merge another container: the CRDTs merge, the metadata merges, and the
    /// content hash becomes that of `encoded_state`, the merged CRDT's
    /// serialized state.
    pub fn merge(&mut self, other: &CRDTContainer<T>, encoded_state: &[u8])
        ensures
            final(self).crdt@ == T::merge_views(old(self).crdt@, other.crdt@),
            final(self).metadata.version@ == join(
                old(self).metadata.version@,
                other.metadata.version@,
            ),
            final(self).metadata.content_hash matches Some(h) && h@ == blake3_digest(
                encoded_state@,
            ),
    {
        self.crdt.merge(&other.crdt);
        self.metadata.merge(&other.metadata);
        self.metadata.content_hash = Some(compute_checksum(encoded_state));
    }
}

/// Counters of CRDT activity.
#[derive(Debug, Clone, Copy, PartialEq, Eq, Structural)]
pub struct CRDTStatistics {
    /// Operations applied.
    pub total_operations: u64,
    /// Merges performed.
    pub merge_operations: u64,
    /// Synchronization events.
    pub sync_events: u64,
    /// Conflicts resolved.
    pub conflicts_resolved: u64,
    /// Current state size in bytes.
    pub current_size_bytes: usize,
    /// Network messages sent.
    pub messages_sent: u64,
    /// Network messages received.
    pub messages_received: u64,
    /// Milliseconds spent merging.
    pub merge_time_ms: u64,
    /// Milliseconds spent synchronizing.
    pub sync_time_ms: u64,
}

impl Default for CRDTStatistics {
    fn default() -> (r: CRDTStatistics)
        ensures
            r == (CRDTStatistics {
                total_operations: 0,
                merge_operations: 0,
                sync_events: 0,
                conflicts_resolved: 0,
                current_size_bytes: 0,
                messages_sent: 0,
                messages_received: 0,
                merge_time_ms: 0,
                sync_time_ms: 0,
            }),
    {
        CRDTStatistics {
            total_operations: 0,
            merge_operations: 0,
            sync_events: 0,
            conflicts_resolved: 0,
            current_size_bytes: 0,
            messages_sent: 0,
            messages_received: 0,
            merge_time_ms: 0,
            sync_time_ms: 0,
        }
    }
}

impl CRDTStatistics {
    /// Count a merge that took `duration_ms` milliseconds.
    pub fn record_merge(&mut self, duration_ms: u64)
        requires
            old(self).merge_operations < u64::MAX,
            old(self).merge_time_ms + duration_ms <= u64::MAX,
        ensures
            *final(self) == (CRDTStatistics {
                merge_operations: (old(self).merge_operations + 1) as u64,
                merge_time_ms: (old(self).merge_time_ms + duration_ms) as u64,
                ..*old(self)
            }),
    {
        self.merge_operations = self.merge_operations + 1;
        self.merge_time_ms = self.merge_time_ms + duration_ms;
    }

    /// Count a synchronization that took `duration_ms` milliseconds.
    pub fn record_sync(&mut self, duration_ms: u64)
        requires
            old(self).sync_events < u64::MAX,
            old(self).sync_time_ms + duration_ms <= u64::MAX,
        ensures
            *final(self) == (CRDTStatistics {
                sync_events: (old(self).sync_events + 1) as u64,
                sync_time_ms: (old(self).sync_time_ms + duration_ms) as u64,
                ..*old(self)
            }),
    {
        self.sync_events = self.sync_events + 1;
        self.sync_time_ms = self.sync_time_ms + duration_ms;
    }
}

} // verus!
