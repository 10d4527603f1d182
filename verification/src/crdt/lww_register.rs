//! Last-writer-wins register: a value with the hybrid timestamp of its write;
//! merging keeps the value with the later timestamp.
use crate::crdt::{hts_lt, HybridTimestamp, PhysicalTimestamp, ReplicaId, StateCRDT, CRDT};
use vstd::laws_eq::obeys_concrete_eq;
use vstd::prelude::*;

verus! {

/// A register whose merge keeps the most recent write. Values are compared
/// with `==`, which must be the identity of values.
pub struct LWWRegister<T: Copy + PartialEq> {
    value: Option<T>,
    timestamp: HybridTimestamp,
}

impl<T: Copy + PartialEq> LWWRegister<T> {
    #[verifier::type_invariant]
    closed spec fn eq_is_identity(&self) -> bool {
        obeys_concrete_eq::<T>()
    }
}

impl<T: Copy + PartialEq> View for LWWRegister<T> {
    /// (value, timestamp of its write)
    type V = (Option<T>, HybridTimestamp);

    closed spec fn view(&self) -> (Option<T>, HybridTimestamp) {
        (self.value, self.timestamp)
    }
}

/// The state after merging `b` into `a`: `b` where its timestamp is later,
/// else `a`.
pub open spec fn lww_merge<T>(a: (Option<T>, HybridTimestamp), b: (Option<T>, HybridTimestamp)) -> (
    Option<T>,
    HybridTimestamp,
) {
    if hts_lt(a.1, b.1) {
        b
    } else {
        a
    }
}

impl<T: Copy + PartialEq> LWWRegister<T> {
    /// An empty register, stamped now by a replica.
    pub fn new(replica_id: ReplicaId) -> (r: LWWRegister<T>)
        requires
            obeys_concrete_eq::<T>(),
        ensures
            r@.0 is None,
            r@.1.replica_id == replica_id,
            r@.1.logical == 0,
    {
        LWWRegister { value: None, timestamp: HybridTimestamp::new(replica_id) }
    }

    /// An empty register stamped at time `now` by a replica.
    pub fn new_at(replica_id: ReplicaId, now: PhysicalTimestamp) -> (r: LWWRegister<T>)
        requires
            obeys_concrete_eq::<T>(),
        ensures
            r@ == (None::<T>, HybridTimestamp { physical: now, logical: 0, replica_id }),
    {
        LWWRegister { value: None, timestamp: HybridTimestamp::new_at(replica_id, now) }
    }

    /// Write a value, stamped now by a replica.
    pub fn set(&mut self, value: T, replica_id: ReplicaId)
        ensures
            final(self)@.0 == Some(value),
            final(self)@.1.replica_id == replica_id,
            final(self)@.1.logical == 0,
    {
        proof {
            use_type_invariant(&*self);
        }
        self.value = Some(value);
        self.timestamp = HybridTimestamp::new(replica_id);
    }

    /// Write a value stamped at time `now` by a replica.
    pub fn set_at(&mut self, value: T, replica_id: ReplicaId, now: PhysicalTimestamp)
        ensures
            final(self)@ == (Some(value), HybridTimestamp { physical: now, logical: 0, replica_id }),
    {
        proof {
            use_type_invariant(&*self);
        }
        self.value = Some(value);
        self.timestamp = HybridTimestamp::new_at(replica_id, now);
    }

    /// The current value, if any was written.
    pub fn get(&self) -> (r: Option<&T>)
        ensures
            match r {
                Some(v) => self@.0 == Some(*v),
                None => self@.0 is None,
            },
    {
        match &self.value {
            Some(v) => Some(v),
            None => None,
        }
    }

    /// The timestamp of the current value.
    pub fn timestamp(&self) -> (r: HybridTimestamp)
        ensures
            r == self@.1,
    {
        self.timestamp
    }
}

impl<T: Copy + PartialEq> CRDT for LWWRegister<T> {
    open spec fn merge_views(a: (Option<T>, HybridTimestamp), b: (Option<T>, HybridTimestamp)) -> (
        Option<T>,
        HybridTimestamp,
    ) {
        lww_merge(a, b)
    }

    fn merge(&mut self, other: &Self) {
        proof {
            use_type_invariant(&*self);
        }
        if self.timestamp.less_than(&other.timestamp) {
            self.value = other.value;
            self.timestamp = other.timestamp;
        }
    }

    fn same_state(&self, other: &Self) -> (r: bool) {
        proof {
            use_type_invariant(self);
        }
        let same_time = !self.timestamp.less_than(&other.timestamp) && !other.timestamp.less_than(
            &self.timestamp,
        );
        same_time && same_option(&self.value, &other.value)
    }

    fn duplicate(&self) -> (r: Self) {
        proof {
            use_type_invariant(self);
        }
        LWWRegister { value: self.value, timestamp: self.timestamp }
    }
}

/// Whether two optional values are the same, for a type whose `==` is the
/// identity of values.
fn same_option<T: Copy + PartialEq>(a: &Option<T>, b: &Option<T>) -> (r: bool)
    requires
        obeys_concrete_eq::<T>(),
    ensures
        r == (*a == *b),
{
    proof {
        reveal(obeys_concrete_eq);
    }
    match (a, b) {
        (None, None) => true,
        (Some(x), Some(y)) => *x == *y,
        _ => false,
    }
}

impl<T: Copy + PartialEq> StateCRDT for LWWRegister<T> {
}

/// Merging a register with itself leaves it unchanged.
pub proof fn lww_merge_idempotent<T>(a: (Option<T>, HybridTimestamp))
    ensures
        lww_merge(a, a) == a,
{
}

/// Merging registers is associative: the latest write wins, the leftmost
/// among writes with equal timestamps.
pub proof fn lww_merge_associative<T>(
    a: (Option<T>, HybridTimestamp),
    b: (Option<T>, HybridTimestamp),
    c: (Option<T>, HybridTimestamp),
)
    ensures
        lww_merge(lww_merge(a, b), c) == lww_merge(a, lww_merge(b, c)),
{
}

/// Merging registers gives the same state in either order, where writes
/// with equal timestamps wrote equal values.
pub proof fn lww_merge_commutative<T>(a: (Option<T>, HybridTimestamp), b: (Option<T>, HybridTimestamp))
    requires
        a.1 == b.1 ==> a.0 == b.0,
    ensures
        lww_merge(a, b) == lww_merge(b, a),
{
}

} // verus!
