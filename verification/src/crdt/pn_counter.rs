//! Increment/decrement counter (PN-Counter): two grow-only counters, one for
//! increments and one for decrements, whose difference is the value.
use crate::crdt::clock_map::{entries_le, get0, join, total};
use crate::crdt::grow_only_counter::{
    gcounter_merge_associative, gcounter_merge_commutative, gcounter_merge_idempotent,
    GrowOnlyCounter,
};
use crate::crdt::{ReplicaId, StateCRDT, CRDT};
use crate::text::{signed_decimal_string, signed_decimal_text};
use vstd::prelude::*;
use vstd::string::StringExecFns;

verus! {

/// The mathematical value of a PN-Counter state: total increments minus
/// total decrements.
pub open spec fn pn_value(v: (Map<u128, u64>, Map<u128, u64>)) -> int {
    total(v.0) - total(v.1)
}

/// The value as the counter reports it: both totals taken as `i64` (with the
/// two's-complement wrap of a cast) and subtracted.
pub open spec fn pn_reported(v: (Map<u128, u64>, Map<u128, u64>)) -> int {
    (total(v.0) as u64 as i64) - (total(v.1) as u64 as i64)
}

/// Whether the reported value of a state can be computed: both totals fit in
/// a `u64` and their difference, as `i64`s, fits in an `i64`.
pub open spec fn pn_value_fits(v: (Map<u128, u64>, Map<u128, u64>)) -> bool {
    &&& total(v.0) <= u64::MAX
    &&& total(v.1) <= u64::MAX
    &&& i64::MIN <= pn_reported(v) <= i64::MAX
}

/// A counter that supports increment and decrement, built from two G-Counters.
pub struct PNCounter {
    increments: GrowOnlyCounter,
    decrements: GrowOnlyCounter,
}

impl View for PNCounter {
    /// Per-replica increments and per-replica decrements.
    type V = (Map<u128, u64>, Map<u128, u64>);

    closed spec fn view(&self) -> (Map<u128, u64>, Map<u128, u64>) {
        (self.increments@, self.decrements@)
    }
}

impl PNCounter {
    /// A new counter with no replica.
    pub fn new() -> (r: PNCounter)
        ensures
            r@ == (Map::<u128, u64>::empty(), Map::<u128, u64>::empty()),
    {
        PNCounter { increments: GrowOnlyCounter::new(), decrements: GrowOnlyCounter::new() }
    }

    /// A new counter that knows one replica, with no increments or decrements.
    pub fn with_replica(replica_id: ReplicaId) -> (r: PNCounter)
        ensures
            r@ == (
                Map::<u128, u64>::empty().insert(replica_id.0, 0),
                Map::<u128, u64>::empty().insert(replica_id.0, 0),
            ),
    {
        PNCounter {
            increments: GrowOnlyCounter::with_replica(replica_id),
            decrements: GrowOnlyCounter::with_replica(replica_id),
        }
    }

    pub proof fn lemma_finite(&self)
        ensures
            self@.0.dom().finite(),
            self@.1.dom().finite(),
    {
        self.increments.lemma_finite();
        self.decrements.lemma_finite();
    }

    /// Increase a replica's increments by `amount`; returns the new value.
    pub fn increment(&mut self, replica_id: ReplicaId, amount: u64) -> (r: i64)
        requires
            get0(old(self)@.0, replica_id.0) + amount <= u64::MAX,
            pn_value_fits(
                (old(self)@.0.insert(replica_id.0, (get0(old(self)@.0, replica_id.0) + amount) as u64), old(self)@.1),
            ),
        ensures
            final(self)@ == (
                old(self)@.0.insert(replica_id.0, (get0(old(self)@.0, replica_id.0) + amount) as u64),
                old(self)@.1,
            ),
            pn_value(final(self)@) == pn_value(old(self)@) + amount,
            r == pn_reported(final(self)@),
    {
        self.increments.increment(replica_id, amount);
        self.value()
    }

    /// Increase a replica's decrements by `amount`; returns the new value.
    pub fn decrement(&mut self, replica_id: ReplicaId, amount: u64) -> (r: i64)
        requires
            get0(old(self)@.1, replica_id.0) + amount <= u64::MAX,
            pn_value_fits(
                (old(self)@.0, old(self)@.1.insert(replica_id.0, (get0(old(self)@.1, replica_id.0) + amount) as u64)),
            ),
        ensures
            final(self)@ == (
                old(self)@.0,
                old(self)@.1.insert(replica_id.0, (get0(old(self)@.1, replica_id.0) + amount) as u64),
            ),
            pn_value(final(self)@) == pn_value(old(self)@) - amount,
            r == pn_reported(final(self)@),
    {
        self.decrements.increment(replica_id, amount);
        self.value()
    }

    /// The text of the counter: `PNCounter(` and its value, then `)`.
    pub fn to_string(&self) -> (r: String)
        requires
            pn_value_fits(self@),
        ensures
            r@ == "PNCounter("@ + signed_decimal_text(pn_reported(self@) as int) + ")"@,
    {
        let v = self.value();
        let digits = signed_decimal_string(v);
        String::from_str("PNCounter(").concat(digits.as_str()).concat(")")
    }

    /// The value: total increments minus total decrements.
    pub fn value(&self) -> (r: i64)
        requires
            pn_value_fits(self@),
        ensures
            r == pn_reported(self@),
            (total(self@.0) <= i64::MAX && total(self@.1) <= i64::MAX) ==> r == pn_value(self@),
    {
        let a = self.increments.value();
        let b = self.decrements.value();
        (a as i64) - (b as i64)
    }

    /// Increments recorded for a replica.
    pub fn get_replica_increments(&self, replica_id: &ReplicaId) -> (r: u64)
        ensures
            r == get0(self@.0, replica_id.0),
    {
        self.increments.get_replica_count(replica_id)
    }

    /// Decrements recorded for a replica.
    pub fn get_replica_decrements(&self, replica_id: &ReplicaId) -> (r: u64)
        ensures
            r == get0(self@.1, replica_id.0),
    {
        self.decrements.get_replica_count(replica_id)
    }

    /// Net contribution of a replica: its increments minus its decrements.
    pub fn get_replica_value(&self, replica_id: &ReplicaId) -> (r: i64)
        requires
            i64::MIN <= (get0(self@.0, replica_id.0) as i64) - (get0(self@.1, replica_id.0) as i64)
                <= i64::MAX,
        ensures
            r == (get0(self@.0, replica_id.0) as i64) - (get0(self@.1, replica_id.0) as i64),
    {
        let a = self.get_replica_increments(replica_id);
        let b = self.get_replica_decrements(replica_id);
        (a as i64) - (b as i64)
    }

    /// The replicas of the increment counter followed by those of the
    /// decrement counter, each part in increasing order of id.
    pub fn replicas(&self) -> (r: Vec<ReplicaId>)
        ensures
            r@.len() == self@.0.dom().len() + self@.1.dom().len(),
            forall|i: int|
                0 <= i < self@.0.dom().len() ==> self@.0.contains_key(#[trigger] r@[i].0),
            forall|i: int|
                self@.0.dom().len() <= i < r@.len() ==> self@.1.contains_key(#[trigger] r@[i].0),
            forall|k: u128|
                self@.0.contains_key(k) ==> exists|i: int|
                    0 <= i < self@.0.dom().len() && #[trigger] r@[i].0 == k,
            forall|k: u128|
                self@.1.contains_key(k) ==> exists|i: int|
                    self@.0.dom().len() <= i < r@.len() && #[trigger] r@[i].0 == k,
    {
        let mut a = self.increments.replicas();
        let b = self.decrements.replicas();
        let ghost a0 = a@;
        let mut i: usize = 0;
        while i < b.len()
            invariant
                i <= b@.len(),
                a@.len() == a0.len() + i,
                forall|j: int| 0 <= j < a0.len() ==> #[trigger] a@[j] == a0[j],
                forall|j: int| 0 <= j < i ==> #[trigger] a@[a0.len() + j] == b@[j],
            decreases b.len() - i,
        {
            a.push(b[i]);
            i = i + 1;
        }
        proof {
            assert forall|k: u128| self@.0.contains_key(k) implies exists|i: int|
                0 <= i < self@.0.dom().len() && #[trigger] a@[i].0 == k by {
                let j = choose|j: int| 0 <= j < a0.len() && #[trigger] a0[j].0 == k;
                assert(a@[j] == a0[j]);
            }
            assert forall|k: u128| self@.1.contains_key(k) implies exists|i: int|
                self@.0.dom().len() <= i < a@.len() && #[trigger] a@[i].0 == k by {
                let j = choose|j: int| 0 <= j < b@.len() && #[trigger] b@[j].0 == k;
                assert(a@[a0.len() + j] == b@[j]);
            }
            assert forall|i: int|
                self@.0.dom().len() <= i < a@.len() implies self@.1.contains_key(#[trigger] a@[i].0) by {
                assert(a@[a0.len() + (i - a0.len())] == b@[i - a0.len()]);
            }
        }
        a
    }

    /// Number of distinct replicas known to either counter.
    pub fn replica_count(&self) -> (r: usize)
        ensures
            r == self@.0.dom().union(self@.1.dom()).len(),
    {
        let a = self.increments.snapshot();
        let b = self.decrements.snapshot();
        let mut u = a.clone();
        proof {
            self.lemma_finite();
        }
        let ghost b0 = b@;
        for kv in it: b.iter()
            invariant
                b@ == b0,
                forall|k: u128| #[trigger]
                    u@.contains_key(k) <==> (self@.0.contains_key(k) || exists|j: int|
                        0 <= j < it.index() && *it.seq()[j].0 == k),
                forall|j: int| 0 <= j < it.seq().len() ==> b0.contains_key(*it.seq()[j].0),
                a@ == self@.0,
                b0 == self@.1,
        {
            u.insert(*kv.0, *kv.1);
        }
        proof {
            assert forall|k: u128| b0.contains_key(k) implies u@.contains_key(k) by {
                broadcast use vstd::std_specs::btree::axiom_spec_btree_map_iter;
            }
            assert(u@.dom() =~= self@.0.dom().union(self@.1.dom()));
            broadcast use vstd::std_specs::btree::axiom_spec_btree_map_len;
        }
        u.len()
    }

    /// Whether both counters are empty (no replica, or a zero total).
    pub fn is_empty(&self) -> (r: bool)
        ensures
            r == ((self@.0.dom().len() == 0 || total(self@.0) == 0) && (self@.1.dom().len() == 0
                || total(self@.1) == 0)),
    {
        self.increments.is_empty() && self.decrements.is_empty()
    }

    /// Total amount of all operations: increments plus decrements.
    pub fn operation_count(&self) -> (r: u64)
        requires
            total(self@.0) + total(self@.1) <= u64::MAX,
        ensures
            r == total(self@.0) + total(self@.1),
    {
        proof {
            self.lemma_finite();
            crate::crdt::clock_map::lemma_total_nonneg(self@.0);
            crate::crdt::clock_map::lemma_total_nonneg(self@.1);
        }
        self.increments.value() + self.decrements.value()
    }

    /// The increment counter.
    pub fn increments(&self) -> (r: &GrowOnlyCounter)
        ensures
            r@ == self@.0,
    {
        &self.increments
    }

    /// The decrement counter.
    pub fn decrements(&self) -> (r: &GrowOnlyCounter)
        ensures
            r@ == self@.1,
    {
        &self.decrements
    }
}

impl Default for PNCounter {
    fn default() -> (r: PNCounter)
        ensures
            r@ == (Map::<u128, u64>::empty(), Map::<u128, u64>::empty()),
    {
        PNCounter::new()
    }
}

impl CRDT for PNCounter {
    open spec fn merge_views(
        a: (Map<u128, u64>, Map<u128, u64>),
        b: (Map<u128, u64>, Map<u128, u64>),
    ) -> (Map<u128, u64>, Map<u128, u64>) {
        (join(a.0, b.0), join(a.1, b.1))
    }

    fn merge(&mut self, other: &Self) {
        self.increments.merge(&other.increments);
        self.decrements.merge(&other.decrements);
    }

    /// Both the increments and the decrements of `self` are covered by `other`.
    fn is_subset_of(&self, other: &Self) -> (r: bool)
        ensures
            r == (entries_le(self@.0, other@.0) && entries_le(self@.1, other@.1)),
    {
        self.increments.is_subset_of(&other.increments) && self.decrements.is_subset_of(
            &other.decrements,
        )
    }

    fn same_state(&self, other: &Self) -> (r: bool) {
        self.increments.same_state(&other.increments) && self.decrements.same_state(
            &other.decrements,
        )
    }

    fn duplicate(&self) -> (r: Self) {
        PNCounter {
            increments: self.increments.duplicate(),
            decrements: self.decrements.duplicate(),
        }
    }
}

impl StateCRDT for PNCounter {
}

impl PartialEq for PNCounter {
    fn eq(&self, other: &Self) -> (r: bool) {
        self.same_state(other)
    }
}

impl vstd::std_specs::cmp::PartialEqSpecImpl for PNCounter {
    open spec fn obeys_eq_spec() -> bool {
        true
    }

    open spec fn eq_spec(&self, other: &Self) -> bool {
        self@ == other@
    }
}

impl Eq for PNCounter {
}

/// An operation on a PN-Counter.
#[derive(Debug, Clone, Copy, PartialEq, Eq, Structural)]
pub enum PNCounterOp {
    /// Increase a replica's increments by an amount.
    Increment { replica_id: ReplicaId, amount: u64 },
    /// Increase a replica's decrements by an amount.
    Decrement { replica_id: ReplicaId, amount: u64 },
}

/// The state after applying an operation.
pub open spec fn pn_apply_spec(
    v: (Map<u128, u64>, Map<u128, u64>),
    op: PNCounterOp,
) -> (Map<u128, u64>, Map<u128, u64>) {
    match op {
        PNCounterOp::Increment { replica_id, amount } => (
            v.0.insert(replica_id.0, (get0(v.0, replica_id.0) + amount) as u64),
            v.1,
        ),
        PNCounterOp::Decrement { replica_id, amount } => (
            v.0,
            v.1.insert(replica_id.0, (get0(v.1, replica_id.0) + amount) as u64),
        ),
    }
}

/// Whether an operation can be applied to a state without overflow.
pub open spec fn pn_op_fits(v: (Map<u128, u64>, Map<u128, u64>), op: PNCounterOp) -> bool {
    &&& match op {
        PNCounterOp::Increment { replica_id, amount } => get0(v.0, replica_id.0) + amount
            <= u64::MAX,
        PNCounterOp::Decrement { replica_id, amount } => get0(v.1, replica_id.0) + amount
            <= u64::MAX,
    }
    &&& pn_value_fits(pn_apply_spec(v, op))
}

impl PNCounterOp {
    /// Apply this operation to a counter; returns the counter's new value.
    pub fn apply(&self, counter: &mut PNCounter) -> (r: i64)
        requires
            pn_op_fits(old(counter)@, *self),
        ensures
            final(counter)@ == pn_apply_spec(old(counter)@, *self),
            r == pn_reported(final(counter)@),
    {
        match self {
            PNCounterOp::Increment { replica_id, amount } => counter.increment(*replica_id, *amount),
            PNCounterOp::Decrement { replica_id, amount } => counter.decrement(*replica_id, *amount),
        }
    }

    /// The replica that issued this operation.
    pub fn replica_id(&self) -> (r: ReplicaId)
        ensures
            r == (match *self {
                PNCounterOp::Increment { replica_id, .. } => replica_id,
                PNCounterOp::Decrement { replica_id, .. } => replica_id,
            }),
    {
        match self {
            PNCounterOp::Increment { replica_id, .. } => *replica_id,
            PNCounterOp::Decrement { replica_id, .. } => *replica_id,
        }
    }

    /// The amount of this operation.
    pub fn amount(&self) -> (r: u64)
        ensures
            r == (match *self {
                PNCounterOp::Increment { amount, .. } => amount,
                PNCounterOp::Decrement { amount, .. } => amount,
            }),
    {
        match self {
            PNCounterOp::Increment { amount, .. } => *amount,
            PNCounterOp::Decrement { amount, .. } => *amount,
        }
    }
}

/// Merging a PN-Counter with itself leaves it unchanged.
pub proof fn pncounter_merge_idempotent(a: PNCounter)
    ensures
        PNCounter::merge_views(a@, a@) == a@,
{
    gcounter_merge_idempotent(a.increments);
    gcounter_merge_idempotent(a.decrements);
}

/// Merging PN-Counters gives the same state in either order.
pub proof fn pncounter_merge_commutative(a: PNCounter, b: PNCounter)
    ensures
        PNCounter::merge_views(a@, b@) == PNCounter::merge_views(b@, a@),
{
    gcounter_merge_commutative(a.increments, b.increments);
    gcounter_merge_commutative(a.decrements, b.decrements);
}

/// Merging PN-Counters is associative.
pub proof fn pncounter_merge_associative(a: PNCounter, b: PNCounter, c: PNCounter)
    ensures
        PNCounter::merge_views(PNCounter::merge_views(a@, b@), c@) == PNCounter::merge_views(
            a@,
            PNCounter::merge_views(b@, c@),
        ),
{
    gcounter_merge_associative(a.increments, b.increments, c.increments);
    gcounter_merge_associative(a.decrements, b.decrements, c.decrements);
}

} // verus!
