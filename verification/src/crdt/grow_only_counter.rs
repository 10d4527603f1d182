//! Grow-only counter (G-Counter): one counter per replica, whose sum is the value.
use crate::crdt::clock_map::{
    entries_le, get0, join, lemma_join_associative, lemma_join_commutative, lemma_join_idempotent,
    lemma_total_insert, lemma_total_join_ge, total, ClockMap,
};
use crate::crdt::{ReplicaId, StateCRDT, CRDT};
use crate::text::{decimal_string, decimal_text};
use std::collections::BTreeMap;
use vstd::prelude::*;
use vstd::string::StringExecFns;

verus! {

/// A counter that can only be incremented. Each replica keeps its own count
/// and the value is the sum of all counts; merging takes each replica's
/// larger count.
pub struct GrowOnlyCounter {
    counters: ClockMap,
}

impl View for GrowOnlyCounter {
    type V = Map<u128, u64>;

    closed spec fn view(&self) -> Map<u128, u64> {
        self.counters@
    }
}

impl GrowOnlyCounter {
    /// A new counter with no replica.
    pub fn new() -> (r: GrowOnlyCounter)
        ensures
            r@ == Map::<u128, u64>::empty(),
    {
        GrowOnlyCounter { counters: ClockMap::new() }
    }

    /// A new counter that knows one replica, with count 0.
    pub fn with_replica(replica_id: ReplicaId) -> (r: GrowOnlyCounter)
        ensures
            r@ == Map::<u128, u64>::empty().insert(replica_id.0, 0),
    {
        let mut c = ClockMap::new();
        c.insert(replica_id.0, 0);
        GrowOnlyCounter { counters: c }
    }

    /// Add `amount` to a replica's count; returns the replica's new count.
    pub fn increment(&mut self, replica_id: ReplicaId, amount: u64) -> (r: u64)
        requires
            get0(old(self)@, replica_id.0) + amount <= u64::MAX,
        ensures
            r == get0(old(self)@, replica_id.0) + amount,
            final(self)@ == old(self)@.insert(replica_id.0, r),
            total(final(self)@) == total(old(self)@) + amount,
    {
        proof {
            self.counters.lemma_finite();
            lemma_total_insert(self@, replica_id.0, (get0(self@, replica_id.0) + amount) as u64);
        }
        self.counters.add(replica_id.0, amount)
    }

    pub proof fn lemma_finite(&self)
        ensures
            self@.dom().finite(),
    {
        self.counters.lemma_finite();
    }

    /// The text of the counter: `GCounter(` and its value, then `)`.
    pub fn to_string(&self) -> (r: String)
        requires
            total(self@) <= u64::MAX,
        ensures
            r@ == "GCounter("@ + decimal_text(total(self@) as nat) + ")"@,
    {
        let v = self.value();
        let digits = decimal_string(v);
        String::from_str("GCounter(").concat(digits.as_str()).concat(")")
    }

    /// The value: the sum of all replica counts.
    pub fn value(&self) -> (r: u64)
        requires
            total(self@) <= u64::MAX,
        ensures
            r == total(self@),
    {
        let s = self.counters.sum_u128();
        s as u64
    }

    /// The count of a replica (0 for an unknown replica).
    pub fn get_replica_count(&self, replica_id: &ReplicaId) -> (r: u64)
        ensures
            r == get0(self@, replica_id.0),
    {
        self.counters.get(replica_id.0)
    }

    /// All known replicas, in increasing order of id.
    pub fn replicas(&self) -> (r: Vec<ReplicaId>)
        ensures
            r@.len() == self@.dom().len(),
            forall|i: int, j: int| 0 <= i < j < r@.len() ==> r@[i].0 < r@[j].0,
            forall|i: int| 0 <= i < r@.len() ==> self@.contains_key(#[trigger] r@[i].0),
            forall|k: u128| self@.contains_key(k) ==> exists|i: int| 0 <= i < r@.len() && #[trigger] r@[i].0 == k,
    {
        ids_of(&self.counters)
    }

    /// Number of known replicas.
    pub fn replica_count(&self) -> (r: usize)
        ensures
            r == self@.dom().len(),
    {
        self.counters.len()
    }

    /// Whether no replica is known or the value is 0.
    pub fn is_empty(&self) -> (r: bool)
        ensures
            r == (self@.dom().len() == 0 || total(self@) == 0),
    {
        self.counters.is_empty() || self.counters.sum_u128() == 0
    }

    /// A copy of all replica counts.
    pub fn snapshot(&self) -> (r: BTreeMap<u128, u64>)
        ensures
            r@ == self@,
    {
        self.counters.to_btree_map()
    }
}

/// The replica ids of a clock map, in increasing order.
pub(crate) fn ids_of(m: &ClockMap) -> (r: Vec<ReplicaId>)
    ensures
        r@.len() == m@.dom().len(),
        forall|i: int, j: int| 0 <= i < j < r@.len() ==> r@[i].0 < r@[j].0,
        forall|i: int| 0 <= i < r@.len() ==> m@.contains_key(#[trigger] r@[i].0),
        forall|k: u128| m@.contains_key(k) ==> exists|i: int| 0 <= i < r@.len() && #[trigger] r@[i].0 == k,
{
    let keys = m.keys();
    let mut out: Vec<ReplicaId> = Vec::new();
    let mut i: usize = 0;
    while i < keys.len()
        invariant
            i <= keys@.len(),
            out@.len() == i,
            forall|j: int| 0 <= j < i ==> #[trigger] out@[j].0 == keys@[j],
        decreases keys.len() - i,
    {
        out.push(ReplicaId(keys[i]));
        i = i + 1;
    }
    proof {
        m.lemma_finite();
        keys@.unique_seq_to_set();
        assert forall|i: int| 0 <= i < out@.len() implies m@.contains_key(#[trigger] out@[i].0) by {
            assert(keys@.to_set().contains(keys@[i]));
        }
        assert forall|k: u128| m@.contains_key(k) implies exists|i: int| 0 <= i < out@.len() && #[trigger] out@[i].0 == k by {
            assert(keys@.to_set().contains(k));
            let i = choose|i: int| 0 <= i < keys@.len() && keys@[i] == k;
            assert(out@[i].0 == k);
        }
    }
    out
}

impl Default for GrowOnlyCounter {
    fn default() -> (r: GrowOnlyCounter)
        ensures
            r@ == Map::<u128, u64>::empty(),
    {
        GrowOnlyCounter::new()
    }
}

impl CRDT for GrowOnlyCounter {
    open spec fn merge_views(a: Map<u128, u64>, b: Map<u128, u64>) -> Map<u128, u64> {
        join(a, b)
    }

    fn merge(&mut self, other: &Self) {
        self.counters.merge(&other.counters);
    }

    /// Every replica count of `self` is at most that of `other`.
    fn is_subset_of(&self, other: &Self) -> (r: bool)
        ensures
            r == entries_le(self@, other@),
    {
        self.counters.entries_le(&other.counters)
    }

    fn same_state(&self, other: &Self) -> (r: bool) {
        self.counters.same_entries(&other.counters)
    }

    fn duplicate(&self) -> (r: Self) {
        GrowOnlyCounter { counters: self.counters.copy() }
    }
}

impl StateCRDT for GrowOnlyCounter {
}

impl PartialEq for GrowOnlyCounter {
    fn eq(&self, other: &Self) -> (r: bool) {
        self.counters.same_entries(&other.counters)
    }
}

impl vstd::std_specs::cmp::PartialEqSpecImpl for GrowOnlyCounter {
    open spec fn obeys_eq_spec() -> bool {
        true
    }

    open spec fn eq_spec(&self, other: &Self) -> bool {
        self@ == other@
    }
}

impl Eq for GrowOnlyCounter {
}

/// Merging a G-Counter with itself leaves it unchanged.
pub proof fn gcounter_merge_idempotent(a: GrowOnlyCounter)
    ensures
        GrowOnlyCounter::merge_views(a@, a@) == a@,
{
    lemma_join_idempotent(a@);
}

/// Merging G-Counters gives the same state in either order.
pub proof fn gcounter_merge_commutative(a: GrowOnlyCounter, b: GrowOnlyCounter)
    ensures
        GrowOnlyCounter::merge_views(a@, b@) == GrowOnlyCounter::merge_views(b@, a@),
{
    lemma_join_commutative(a@, b@);
}

/// Merging G-Counters is associative.
pub proof fn gcounter_merge_associative(a: GrowOnlyCounter, b: GrowOnlyCounter, c: GrowOnlyCounter)
    ensures
        GrowOnlyCounter::merge_views(GrowOnlyCounter::merge_views(a@, b@), c@)
            == GrowOnlyCounter::merge_views(a@, GrowOnlyCounter::merge_views(b@, c@)),
{
    lemma_join_associative(a@, b@, c@);
}

/// The value of a G-Counter never decreases by merging: the merged value is at
/// least the value of either replica.
pub proof fn gcounter_merge_monotonic(a: GrowOnlyCounter, b: GrowOnlyCounter)
    ensures
        total(GrowOnlyCounter::merge_views(a@, b@)) >= total(a@),
        total(GrowOnlyCounter::merge_views(a@, b@)) >= total(b@),
{
    a.lemma_finite();
    b.lemma_finite();
    lemma_total_join_ge(a@, b@);
}

} // verus!
