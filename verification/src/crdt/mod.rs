//! Conflict-free replicated data types: timestamps, the merge trait with its
//! laws, and the counters, sets, registers and clocks built on it.
use vstd::prelude::*;

pub mod clock_map;
pub mod metadata;
pub mod mv_register;
pub mod or_set;
pub mod utils;
pub mod grow_only_counter;
pub mod grow_only_set;
pub mod lww_register;
pub mod two_phase_set;
pub mod pn_counter;
pub mod rga;
pub mod sync;
pub mod vector_clock;

verus! {

/// Unique identifier of a CRDT replica: the 128-bit value of a UUID.
#[derive(Debug, Clone, Copy, PartialEq, Eq, Structural, Hash, PartialOrd, Ord)]
pub struct ReplicaId(pub u128);

impl ReplicaId {
    /// A new random id: a fresh version-4 UUID.
    pub fn new() -> (r: ReplicaId)
        ensures
            crate::ident::is_v4_uuid(r.0),
    {
        ReplicaId(crate::ident::random_uuid())
    }

    /// Create from the 128-bit value of an existing UUID.
    pub fn from_uuid(uuid: u128) -> (r: ReplicaId)
        ensures
            r.0 == uuid,
    {
        ReplicaId(uuid)
    }

    /// The 128-bit value of the underlying UUID.
    pub fn uuid(&self) -> (r: u128)
        ensures
            r == self.0,
    {
        self.0
    }

    /// The hyphenated text of the underlying UUID.
    pub fn to_string(&self) -> (r: String)
        ensures
            r@ == crate::ident::uuid_text(self.0),
    {
        crate::ident::format_uuid(self.0)
    }
}

/// Lamport timestamp of a CRDT operation.
#[derive(Debug, Clone, Copy, PartialEq, Eq, Structural, PartialOrd, Ord)]
pub struct LogicalTimestamp {
    /// Lamport counter.
    pub counter: u64,
    /// Replica that generated this timestamp.
    pub replica_id: ReplicaId,
}

impl LogicalTimestamp {
    /// Create a new timestamp.
    pub fn new(counter: u64, replica_id: ReplicaId) -> (r: LogicalTimestamp)
        ensures
            r.counter == counter,
            r.replica_id == replica_id,
    {
        LogicalTimestamp { counter, replica_id }
    }

    /// Advance the counter for a local operation.
    pub fn tick(&mut self)
        requires
            old(self).counter < u64::MAX,
        ensures
            final(self).counter == old(self).counter + 1,
            final(self).replica_id == old(self).replica_id,
    {
        self.counter = self.counter + 1;
    }

    /// Move past a timestamp received from a remote replica.
    pub fn update(&mut self, remote: &LogicalTimestamp)
        requires
            old(self).counter < u64::MAX,
            remote.counter < u64::MAX,
        ensures
            final(self).counter == (if old(self).counter >= remote.counter {
                old(self).counter
            } else {
                remote.counter
            }) + 1,
            final(self).replica_id == old(self).replica_id,
    {
        let m = if self.counter >= remote.counter { self.counter } else { remote.counter };
        self.counter = m + 1;
    }
}


/// Wall-clock instant in UTC: whole seconds since the Unix epoch and the
/// nanoseconds within that second (above 999_999_999 only during a leap second).
#[derive(Debug, Clone, Copy, PartialEq, Eq, Structural, PartialOrd, Ord)]
pub struct PhysicalTimestamp {
    pub secs: i64,
    pub nanos: u32,
}

/// The current UTC time, as seconds since the epoch and sub-second nanoseconds.
#[verifier::external_body]
fn utc_now_parts() -> (r: (i64, u32)) {
    let now = chrono::Utc::now();
    (now.timestamp(), now.timestamp_subsec_nanos())
}

/// Strict order of physical timestamps: by seconds, then by nanoseconds.
pub open spec fn phys_lt(a: PhysicalTimestamp, b: PhysicalTimestamp) -> bool {
    a.secs < b.secs || (a.secs == b.secs && a.nanos < b.nanos)
}

impl PhysicalTimestamp {
    /// Timestamp for the current time.
    pub fn now() -> (r: PhysicalTimestamp) {
        let (secs, nanos) = utc_now_parts();
        PhysicalTimestamp { secs, nanos }
    }

    /// Timestamp of a given UTC date-time, given as seconds since the epoch and
    /// nanoseconds within the second.
    pub fn from_datetime(secs: i64, nanos: u32) -> (r: PhysicalTimestamp)
        ensures
            r.secs == secs,
            r.nanos == nanos,
    {
        PhysicalTimestamp { secs, nanos }
    }

    /// Whether `self` is strictly earlier than `other`.
    pub fn before(&self, other: &PhysicalTimestamp) -> (r: bool)
        ensures
            r == phys_lt(*self, *other),
    {
        self.secs < other.secs || (self.secs == other.secs && self.nanos < other.nanos)
    }
}

/// Hybrid logical-physical timestamp.
#[derive(Debug, Clone, Copy, PartialEq, Eq, Structural, PartialOrd, Ord)]
pub struct HybridTimestamp {
    /// Physical component (wall clock).
    pub physical: PhysicalTimestamp,
    /// Logical component (Lamport counter).
    pub logical: u64,
    /// Replica that created this timestamp.
    pub replica_id: ReplicaId,
}

/// Order of hybrid timestamps on their (physical, logical) part.
pub open spec fn pl_lt(a: HybridTimestamp, b: HybridTimestamp) -> bool {
    phys_lt(a.physical, b.physical) || (a.physical == b.physical && a.logical < b.logical)
}

/// Total order of hybrid timestamps: physical, then logical, then replica id.
pub open spec fn hts_lt(a: HybridTimestamp, b: HybridTimestamp) -> bool {
    pl_lt(a, b) || (a.physical == b.physical && a.logical == b.logical && a.replica_id.0
        < b.replica_id.0)
}

/// The later of two physical timestamps.
pub open spec fn phys_max(a: PhysicalTimestamp, b: PhysicalTimestamp) -> PhysicalTimestamp {
    if phys_lt(a, b) {
        b
    } else {
        a
    }
}

/// The timestamp after a local operation observed at wall-clock time `now`.
pub open spec fn tick_spec(t: HybridTimestamp, now: PhysicalTimestamp) -> HybridTimestamp {
    if phys_lt(t.physical, now) {
        HybridTimestamp { physical: now, logical: 0, ..t }
    } else {
        HybridTimestamp { logical: (t.logical + 1) as u64, ..t }
    }
}

/// The timestamp after receiving `remote` at wall-clock time `now`.
pub open spec fn update_spec(
    t: HybridTimestamp,
    remote: HybridTimestamp,
    now: PhysicalTimestamp,
) -> HybridTimestamp {
    let m = phys_max(phys_max(t.physical, remote.physical), now);
    if phys_lt(t.physical, m) && phys_lt(remote.physical, m) {
        HybridTimestamp { physical: m, logical: 0, ..t }
    } else if m == t.physical {
        HybridTimestamp {
            logical: (if t.logical >= remote.logical {
                t.logical
            } else {
                remote.logical
            } + 1) as u64,
            ..t
        }
    } else {
        HybridTimestamp { physical: m, logical: (remote.logical + 1) as u64, ..t }
    }
}

impl HybridTimestamp {
    /// New hybrid timestamp at the current time.
    pub fn new(replica_id: ReplicaId) -> (r: HybridTimestamp)
        ensures
            r.logical == 0,
            r.replica_id == replica_id,
    {
        Self::new_at(replica_id, PhysicalTimestamp::now())
    }

    /// New hybrid timestamp at a given wall-clock time.
    pub fn new_at(replica_id: ReplicaId, now: PhysicalTimestamp) -> (r: HybridTimestamp)
        ensures
            r == (HybridTimestamp { physical: now, logical: 0, replica_id }),
    {
        HybridTimestamp { physical: now, logical: 0, replica_id }
    }

    /// Whether `self` orders strictly before `other`.
    pub fn less_than(&self, other: &HybridTimestamp) -> (r: bool)
        ensures
            r == hts_lt(*self, *other),
    {
        if self.physical.before(&other.physical) {
            true
        } else if other.physical.before(&self.physical) {
            false
        } else if self.logical != other.logical {
            self.logical < other.logical
        } else {
            self.replica_id.0 < other.replica_id.0
        }
    }

    /// Advance for a local operation, reading the wall clock.
    pub fn tick(&mut self)
        requires
            old(self).logical < u64::MAX,
        ensures
            pl_lt(*old(self), *final(self)),
            final(self).replica_id == old(self).replica_id,
            exists|now: PhysicalTimestamp| *final(self) == #[trigger] tick_spec(*old(self), now),
    {
        let now = PhysicalTimestamp::now();
        self.tick_at(now);
        proof {
            lemma_tick_advances(*old(self), now);
        }
    }

    /// Advance for a local operation observed at wall-clock time `now`.
    pub fn tick_at(&mut self, now: PhysicalTimestamp)
        requires
            old(self).logical < u64::MAX,
        ensures
            *final(self) == tick_spec(*old(self), now),
    {
        if self.physical.before(&now) {
            self.physical = now;
            self.logical = 0;
        } else {
            self.logical = self.logical + 1;
        }
    }

    /// Move past a timestamp received from a remote replica, reading the wall clock.
    pub fn update(&mut self, remote: &HybridTimestamp)
        requires
            old(self).logical < u64::MAX,
            remote.logical < u64::MAX,
        ensures
            pl_lt(*old(self), *final(self)),
            pl_lt(*remote, *final(self)),
            final(self).replica_id == old(self).replica_id,
            exists|now: PhysicalTimestamp| *final(self) == #[trigger] update_spec(*old(self), *remote, now),
    {
        let now = PhysicalTimestamp::now();
        self.update_at(remote, now);
        proof {
            lemma_update_passes_both(*old(self), *remote, now);
        }
    }

    /// Move past a timestamp received from a remote replica at wall-clock time `now`.
    pub fn update_at(&mut self, remote: &HybridTimestamp, now: PhysicalTimestamp)
        requires
            old(self).logical < u64::MAX,
            remote.logical < u64::MAX,
        ensures
            *final(self) == update_spec(*old(self), *remote, now),
    {
        let a = if self.physical.before(&remote.physical) {
            remote.physical
        } else {
            self.physical
        };
        let m = if a.before(&now) {
            now
        } else {
            a
        };
        if self.physical.before(&m) && remote.physical.before(&m) {
            self.physical = m;
            self.logical = 0;
        } else if m == self.physical {
            let l = if self.logical >= remote.logical {
                self.logical
            } else {
                remote.logical
            };
            self.logical = l + 1;
        } else {
            self.physical = m;
            self.logical = remote.logical + 1;
        }
    }
}

/// A local tick moves a hybrid timestamp strictly forward.
pub proof fn lemma_tick_advances(t: HybridTimestamp, now: PhysicalTimestamp)
    requires
        t.logical < u64::MAX,
    ensures
        pl_lt(t, tick_spec(t, now)),
        tick_spec(t, now).replica_id == t.replica_id,
{
}

/// Receiving a remote timestamp moves the local one strictly past both the old
/// local value and the remote value.
pub proof fn lemma_update_passes_both(
    t: HybridTimestamp,
    remote: HybridTimestamp,
    now: PhysicalTimestamp,
)
    requires
        t.logical < u64::MAX,
        remote.logical < u64::MAX,
    ensures
        pl_lt(t, update_spec(t, remote, now)),
        pl_lt(remote, update_spec(t, remote, now)),
        update_spec(t, remote, now).replica_id == t.replica_id,
{
}

/// State-based merge semantics shared by all CRDTs of this crate.
///
/// `merge_views` is the mathematical join of two states; `merge` computes it.
/// Whether a type's join is idempotent, commutative and associative is stated
/// and proved for each type beside it.
pub trait CRDT: Sized + View {
    /// The state that merging a state `b` into a state `a` yields.
    spec fn merge_views(a: Self::V, b: Self::V) -> Self::V;

    /// Merge another replica's state into this one.
    fn merge(&mut self, other: &Self)
        ensures
            final(self)@ == Self::merge_views(old(self)@, other@),
    ;

    /// A new state obtained by merging `other` into `self`.
    fn merged(self, other: &Self) -> (r: Self)
        ensures
            r@ == Self::merge_views(self@, other@),
    {
        let mut s = self;
        s.merge(other);
        s
    }

    /// Whether `self` is known to be covered by `other` (conservatively false
    /// unless a type says more).
    fn is_subset_of(&self, other: &Self) -> (r: bool)
        default_ensures
            r == false,
    {
        false
    }

    /// Whether two replicas hold the same state.
    fn same_state(&self, other: &Self) -> (r: bool)
        ensures
            r == (self@ == other@),
    ;

    /// A copy of this replica's state.
    fn duplicate(&self) -> (r: Self)
        ensures
            r@ == self@,
    ;
}

/// State-based CRDT (CvRDT) with explicit state transfer.
pub trait StateCRDT: CRDT {
    /// The current state, for synchronization.
    fn state(&self) -> (r: Self)
        ensures
            r@ == self@,
    {
        self.duplicate()
    }

    /// Merge a state received from a remote replica.
    fn merge_state(&mut self, state: &Self)
        ensures
            final(self)@ == Self::merge_views(old(self)@, state@),
    {
        self.merge(state);
    }
}

/// Operation-based CRDT (CmRDT), for users to implement: operations are
/// applied where `can_apply` allows them.
pub trait OpCRDT<Op>: CRDT {
    type Error;

    /// The description of a mutation that `generate_op` turns into an operation.
    type Mutation;

    /// The state that applying `op` to this replica gives, or `None` where
    /// applying it fails.
    spec fn applied(&self, op: &Op) -> Option<Self::V>;

    /// Whether `op` can be applied to this replica (its precondition).
    spec fn op_allowed(&self, op: &Op) -> bool;

    /// Apply an operation: the state becomes `applied`, or the call fails
    /// where that is `None`.
    fn apply(&mut self, op: &Op) -> (r: Result<(), Self::Error>)
        ensures
            match r {
                Ok(()) => old(self).applied(op) == Some(final(self)@),
                Err(_) => old(self).applied(op) is None,
            },
    ;

    /// Generate the operation for a mutation.
    fn generate_op(&self, mutation: &Self::Mutation) -> Result<Op, Self::Error>;

    /// Whether the operation can be applied (its precondition).
    fn can_apply(&self, op: &Op) -> (r: bool)
        ensures
            r == self.op_allowed(op),
    ;

    /// Apply the operation where `can_apply` allows it, giving `Ok(true)`
    /// where it was applied; `Ok(false)` where it is not allowed, without
    /// applying it; an error where applying it fails.
    fn try_apply(&mut self, op: &Op) -> (r: Result<bool, Self::Error>)
        ensures
            !old(self).op_allowed(op) ==> (r matches Ok(false) && final(self)@ == old(self)@),
            old(self).op_allowed(op) ==> match old(self).applied(op) {
                Some(v) => r matches Ok(true) && final(self)@ == v,
                None => r is Err,
            },
    {
        if self.can_apply(op) {
            match self.apply(op) {
                Ok(()) => Ok(true),
                Err(e) => Err(e),
            }
        } else {
            Ok(false)
        }
    }
}

/// Delta CRDT supporting incremental synchronization, for users to implement.
pub trait DeltaCRDT: CRDT {
    type Delta;

    /// Apply a delta.
    fn apply_delta(&mut self, delta: &Self::Delta);

    /// The delta since a given base state, if any.
    fn delta_since(&self, base: &Self) -> Option<Self::Delta>;

    /// Merge several deltas into one.
    fn merge_deltas(deltas: &[Self::Delta]) -> Self::Delta;
}

} // verus!
