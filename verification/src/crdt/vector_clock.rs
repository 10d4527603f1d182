//! Vector clocks for causality tracking.
use crate::crdt::clock_map::{
    entries_le, get0, is_max_value, join, lemma_join_associative, lemma_join_commutative,
    lemma_join_idempotent, positive_entries, total, ClockMap,
};
use crate::crdt::grow_only_counter::ids_of;
use crate::crdt::{ReplicaId, CRDT};
use crate::ident::{format_uuid, uuid_text};
use crate::text::{decimal_string, decimal_text};
use std::cmp::Ordering;
use std::collections::BTreeMap;
use vstd::prelude::*;
use vstd::string::StringExecFns;

verus! {

/// Every replica's time in `a` is at most its time in `b` (absent replicas
/// count as 0).
pub open spec fn clock_le(a: Map<u128, u64>, b: Map<u128, u64>) -> bool {
    forall|k: u128| #[trigger] get0(a, k) <= get0(b, k)
}

/// `a` happens before `b`: `a <= b` on every replica and `a < b` on some.
pub open spec fn happens_before(a: Map<u128, u64>, b: Map<u128, u64>) -> bool {
    clock_le(a, b) && exists|k: u128| #[trigger] get0(a, k) < get0(b, k)
}

/// Neither happens before the other and the clocks differ.
pub open spec fn concurrent(a: Map<u128, u64>, b: Map<u128, u64>) -> bool {
    !happens_before(a, b) && !happens_before(b, a) && a != b
}

/// `a` dominates `b`: `b` happens before `a`, or they are equal.
pub open spec fn dominates(a: Map<u128, u64>, b: Map<u128, u64>) -> bool {
    happens_before(b, a) || a == b
}

/// The causal order of two clocks: `Less` where `a` happens before `b`,
/// `Greater` where `b` happens before `a`, `Equal` for the same entries, and
/// none where they are concurrent.
pub open spec fn causal_order(a: Map<u128, u64>, b: Map<u128, u64>) -> Option<Ordering> {
    if happens_before(a, b) {
        Some(Ordering::Less)
    } else if happens_before(b, a) {
        Some(Ordering::Greater)
    } else if a == b {
        Some(Ordering::Equal)
    } else {
        None
    }
}

/// The text of one entry: the replica's UUID, a colon, the time.
pub open spec fn entry_text(m: Map<u128, u64>, k: u128) -> Seq<char> {
    uuid_text(k) + ":"@ + decimal_text(m[k] as nat)
}

/// The texts of the entries of some replicas, in order, separated by ", ".
pub open spec fn entries_text(m: Map<u128, u64>, ks: Seq<u128>) -> Seq<char>
    decreases ks.len(),
{
    if ks.len() == 0 {
        Seq::empty()
    } else if ks.len() == 1 {
        entry_text(m, ks[0])
    } else {
        entries_text(m, ks.drop_last()) + ", "@ + entry_text(m, ks.last())
    }
}

/// Whether `ks` lists the replicas of `m` in increasing order.
pub open spec fn sorted_keys(m: Map<u128, u64>, ks: Seq<u128>) -> bool {
    &&& forall|i: int, j: int| 0 <= i < j < ks.len() ==> ks[i] < ks[j]
    &&& forall|i: int| 0 <= i < ks.len() ==> m.contains_key(#[trigger] ks[i])
    &&& forall|k: u128| m.contains_key(k) ==> exists|i: int| 0 <= i < ks.len() && #[trigger] ks[i] == k
}

/// A vector clock: the logical time each known replica has reached. It orders
/// events partially: `happens_before` where one clock is below the other, and
/// concurrent where neither is.
pub struct VectorClock {
    clocks: ClockMap,
}

impl View for VectorClock {
    type V = Map<u128, u64>;

    closed spec fn view(&self) -> Map<u128, u64> {
        self.clocks@
    }
}

impl VectorClock {
    /// A new clock with no replica.
    pub fn new() -> (r: VectorClock)
        ensures
            r@ == Map::<u128, u64>::empty(),
    {
        VectorClock { clocks: ClockMap::new() }
    }

    /// A new clock that knows one replica, at time 0.
    pub fn with_replica(replica_id: ReplicaId) -> (r: VectorClock)
        ensures
            r@ == Map::<u128, u64>::empty().insert(replica_id.0, 0),
    {
        let mut c = ClockMap::new();
        c.insert(replica_id.0, 0);
        VectorClock { clocks: c }
    }

    /// The time of a replica (0 for an unknown replica).
    pub fn get(&self, replica_id: &ReplicaId) -> (r: u64)
        ensures
            r == get0(self@, replica_id.0),
    {
        self.clocks.get(replica_id.0)
    }

    /// Raise a replica's time to `timestamp` if it is below it (the replica
    /// becomes known either way).
    pub fn set(&mut self, replica_id: ReplicaId, timestamp: u64)
        ensures
            final(self)@ == old(self)@.insert(
                replica_id.0,
                if get0(old(self)@, replica_id.0) >= timestamp {
                    get0(old(self)@, replica_id.0)
                } else {
                    timestamp
                },
            ),
    {
        self.clocks.insert_max(replica_id.0, timestamp);
    }

    /// Advance a replica's time by one; returns the new time.
    pub fn increment(&mut self, replica_id: ReplicaId) -> (r: u64)
        requires
            get0(old(self)@, replica_id.0) < u64::MAX,
        ensures
            r == get0(old(self)@, replica_id.0) + 1,
            final(self)@ == old(self)@.insert(replica_id.0, r),
    {
        self.clocks.add(replica_id.0, 1)
    }

    /// Take, for every replica, the larger of the two times.
    pub fn update(&mut self, other: &VectorClock)
        ensures
            final(self)@ == join(old(self)@, other@),
    {
        self.clocks.merge(&other.clocks);
    }

    /// The clock that `update` would produce, leaving `self` unchanged.
    pub fn merged(&self, other: &VectorClock) -> (r: VectorClock)
        ensures
            r@ == join(self@, other@),
    {
        let mut result = VectorClock { clocks: self.clocks.copy() };
        result.update(other);
        result
    }

    /// Whether `self` happens before `other`.
    pub fn happens_before(&self, other: &VectorClock) -> (r: bool)
        ensures
            r == happens_before(self@, other@),
    {
        let le = self.clocks.entries_le(&other.clocks);
        let lt = other.clocks.some_entry_gt(&self.clocks);
        proof {
            let a = self@;
            let b = other@;
            assert(entries_le(a, b) == clock_le(a, b)) by {
                if entries_le(a, b) {
                    assert forall|k: u128| #[trigger] get0(a, k) <= get0(b, k) by {
                        if a.contains_key(k) {
                            assert(a[k] <= get0(b, k));
                        }
                    }
                }
                if clock_le(a, b) {
                    assert forall|k: u128| a.contains_key(k) implies #[trigger] a[k] <= get0(b, k) by {
                        assert(get0(a, k) <= get0(b, k));
                    }
                }
            }
            if lt {
                let k = choose|k: u128| b.contains_key(k) && #[trigger] get0(b, k) > get0(a, k);
                assert(get0(a, k) < get0(b, k));
            }
            if exists|k: u128| #[trigger] get0(a, k) < get0(b, k) {
                let k = choose|k: u128| #[trigger] get0(a, k) < get0(b, k);
                assert(b.contains_key(k) && get0(b, k) > get0(a, k));
            }
        }
        le && lt
    }

    /// Whether the clocks hold the same entries.
    pub fn same_entries(&self, other: &VectorClock) -> (r: bool)
        ensures
            r == (self@ == other@),
    {
        self.clocks.same_entries(&other.clocks)
    }

    /// Whether neither clock happens before the other and they differ.
    pub fn concurrent_with(&self, other: &VectorClock) -> (r: bool)
        ensures
            r == concurrent(self@, other@),
    {
        !self.happens_before(other) && !other.happens_before(self) && !self.same_entries(other)
    }

    /// Whether `other` happens before `self` or they are equal.
    pub fn dominates(&self, other: &VectorClock) -> (r: bool)
        ensures
            r == dominates(self@, other@),
    {
        other.happens_before(self) || self.same_entries(other)
    }

    /// The text of the clock: `VC{`, each replica's UUID and time as
    /// `uuid:time` in increasing order of id, separated by `, `, and `}`.
    pub fn to_string(&self) -> (r: String)
        ensures
            exists|ks: Seq<u128>|
                sorted_keys(self@, ks) && r@ == "VC{"@ + #[trigger] entries_text(self@, ks) + "}"@,
    {
        let ids = self.replica_ids();
        let ghost ks = ids@.map_values(|id: ReplicaId| id.0);
        let mut s = String::from_str("VC{");
        let mut i: usize = 0;
        proof {
            assert(ks.take(0) =~= Seq::<u128>::empty());
            assert(sorted_keys(self@, ks)) by {
                assert forall|i: int, j: int| 0 <= i < j < ks.len() implies ks[i] < ks[j] by {
                    assert(ids@[i].0 < ids@[j].0);
                }
                assert forall|i: int| 0 <= i < ks.len() implies self@.contains_key(#[trigger] ks[i]) by {
                    assert(self@.contains_key(ids@[i].0));
                }
                assert forall|k: u128| self@.contains_key(k) implies exists|i: int|
                    0 <= i < ks.len() && #[trigger] ks[i] == k by {
                    let i = choose|i: int| 0 <= i < ids@.len() && #[trigger] ids@[i].0 == k;
                    assert(ks[i] == k);
                }
            }
        }
        while i < ids.len()
            invariant
                i <= ids@.len(),
                ks == ids@.map_values(|id: ReplicaId| id.0),
                sorted_keys(self@, ks),
                s@ == "VC{"@ + entries_text(self@, ks.take(i as int)),
            decreases ids@.len() - i,
        {
            let id = ids[i].0;
            let t = self.get(&ids[i]);
            let ghost prev = s@;
            proof {
                assert(ks.take(i + 1).drop_last() =~= ks.take(i as int));
                assert(ks.take(i + 1).last() == id);
                assert(ks[i as int] == id);
                assert(self@.contains_key(id));
                assert(t == self@[id]);
            }
            if i > 0 {
                s.append(", ");
            }
            let text = format_uuid(id);
            s.append(text.as_str());
            s.append(":");
            let num = decimal_string(t);
            s.append(num.as_str());
            proof {
                let e = entry_text(self@, id);
                assert(e =~= uuid_text(id) + ":"@ + decimal_text(t as nat));
                if i == 0 {
                    assert(ks.take(1).len() == 1 && ks.take(1)[0] == id);
                    assert(entries_text(self@, ks.take(1)) == e);
                    assert(entries_text(self@, ks.take(0)) =~= Seq::<char>::empty());
                    assert(s@ =~= "VC{"@ + entries_text(self@, ks.take(1)));
                } else {
                    assert(entries_text(self@, ks.take(i + 1)) == entries_text(self@, ks.take(i as int))
                        + ", "@ + e);
                    assert(s@ =~= "VC{"@ + entries_text(self@, ks.take(i + 1)));
                }
            }
            i = i + 1;
        }
        s.append("}");
        proof {
            assert(ks.take(ids@.len() as int) =~= ks);
            assert(s@ == "VC{"@ + entries_text(self@, ks) + "}"@);
        }
        s
    }

    /// All known replicas, in increasing order of id.
    pub fn replica_ids(&self) -> (r: Vec<ReplicaId>)
        ensures
            r@.len() == self@.dom().len(),
            forall|i: int, j: int| 0 <= i < j < r@.len() ==> r@[i].0 < r@[j].0,
            forall|i: int| 0 <= i < r@.len() ==> self@.contains_key(#[trigger] r@[i].0),
            forall|k: u128| self@.contains_key(k) ==> exists|i: int| 0 <= i < r@.len() && #[trigger] r@[i].0 == k,
    {
        ids_of(&self.clocks)
    }

    /// Number of known replicas.
    pub fn replica_count(&self) -> (r: usize)
        ensures
            r == self@.dom().len(),
    {
        self.clocks.len()
    }

    /// Whether no replica is known.
    pub fn is_empty(&self) -> (r: bool)
        ensures
            r == (self@.dom().len() == 0),
    {
        self.clocks.is_empty()
    }

    /// The largest time of any replica, or 0.
    pub fn max_timestamp(&self) -> (r: u64)
        ensures
            is_max_value(self@, r),
    {
        self.clocks.max_value()
    }

    /// The sum of all replicas' times.
    pub fn sum(&self) -> (r: u64)
        requires
            total(self@) <= u64::MAX,
        ensures
            r == total(self@),
    {
        let s = self.clocks.sum_u128();
        s as u64
    }

    /// A copy of every replica's time.
    pub fn snapshot(&self) -> (r: BTreeMap<u128, u64>)
        ensures
            r@ == self@,
    {
        self.clocks.to_btree_map()
    }

    /// Forget the replicas whose time is 0.
    pub fn compact(&mut self)
        ensures
            final(self)@ == positive_entries(old(self)@),
    {
        self.clocks = self.clocks.positive_part();
    }

    /// Approximate size in bytes: the clock itself and, per replica, an id and a time.
    pub fn size_bytes(&self) -> (r: usize)
        requires
            24 + self@.dom().len() * 24 <= usize::MAX,
        ensures
            r == 24 + self@.dom().len() * 24,
    {
        24 + self.clocks.len() * 24
    }

    /// A copy of this clock.
    pub fn duplicate_clock(&self) -> (r: VectorClock)
        ensures
            r@ == self@,
    {
        VectorClock { clocks: self.clocks.copy() }
    }
}

impl Default for VectorClock {
    fn default() -> (r: VectorClock)
        ensures
            r@ == Map::<u128, u64>::empty(),
    {
        VectorClock::new()
    }
}

impl CRDT for VectorClock {
    open spec fn merge_views(a: Map<u128, u64>, b: Map<u128, u64>) -> Map<u128, u64> {
        join(a, b)
    }

    fn merge(&mut self, other: &Self) {
        self.update(other);
    }

    /// Every time in `self` is at most the time `other` gives that replica.
    fn is_subset_of(&self, other: &Self) -> (r: bool)
        ensures
            r == entries_le(self@, other@),
    {
        self.clocks.entries_le(&other.clocks)
    }

    fn same_state(&self, other: &Self) -> (r: bool) {
        self.same_entries(other)
    }

    fn duplicate(&self) -> (r: Self) {
        self.duplicate_clock()
    }
}

impl PartialEq for VectorClock {
    fn eq(&self, other: &Self) -> (r: bool) {
        self.same_entries(other)
    }
}

impl vstd::std_specs::cmp::PartialEqSpecImpl for VectorClock {
    open spec fn obeys_eq_spec() -> bool {
        true
    }

    open spec fn eq_spec(&self, other: &Self) -> bool {
        self@ == other@
    }
}

impl Eq for VectorClock {
}

impl PartialOrd for VectorClock {
    fn partial_cmp(&self, other: &Self) -> (r: Option<Ordering>) {
        if self.happens_before(other) {
            Some(Ordering::Less)
        } else if other.happens_before(self) {
            Some(Ordering::Greater)
        } else if self.same_entries(other) {
            Some(Ordering::Equal)
        } else {
            None
        }
    }
}

impl vstd::std_specs::cmp::PartialOrdSpecImpl for VectorClock {
    open spec fn obeys_partial_cmp_spec() -> bool {
        true
    }

    open spec fn partial_cmp_spec(&self, other: &Self) -> Option<Ordering> {
        causal_order(self@, other@)
    }
}

/// Happens-before is irreflexive.
pub proof fn happens_before_irreflexive(a: VectorClock)
    ensures
        !happens_before(a@, a@),
{
}

/// The causal order read the other way round: `a` is before `b` exactly when
/// `b` is after `a`, equal exactly when `b` is equal to `a`, and concurrent
/// exactly when `b` is concurrent with `a`.
pub proof fn causal_order_converse(a: VectorClock, b: VectorClock)
    ensures
        causal_order(a@, b@) == Some(Ordering::Less) <==> causal_order(b@, a@) == Some(
            Ordering::Greater,
        ),
        causal_order(a@, b@) == Some(Ordering::Equal) <==> causal_order(b@, a@) == Some(
            Ordering::Equal,
        ),
        causal_order(a@, b@) is None <==> causal_order(b@, a@) is None,
{
    if happens_before(a@, b@) && happens_before(b@, a@) {
        let k = choose|k: u128| #[trigger] get0(a@, k) < get0(b@, k);
        assert(get0(b@, k) <= get0(a@, k));
    }
    if happens_before(a@, b@) {
        assert(a@ != b@) by {
            let k = choose|k: u128| #[trigger] get0(a@, k) < get0(b@, k);
        }
    }
    if happens_before(b@, a@) {
        assert(a@ != b@) by {
            let k = choose|k: u128| #[trigger] get0(b@, k) < get0(a@, k);
        }
    }
}

/// Happens-before is transitive.
pub proof fn happens_before_transitive(a: VectorClock, b: VectorClock, c: VectorClock)
    requires
        happens_before(a@, b@),
        happens_before(b@, c@),
    ensures
        happens_before(a@, c@),
{
    let k = choose|k: u128| #[trigger] get0(a@, k) < get0(b@, k);
    assert(get0(b@, k) <= get0(c@, k));
    assert forall|j: u128| #[trigger] get0(a@, j) <= get0(c@, j) by {
        assert(get0(a@, j) <= get0(b@, j));
        assert(get0(b@, j) <= get0(c@, j));
    }
    assert(get0(a@, k) < get0(c@, k));
}

/// Happens-before is asymmetric: two clocks never happen before each other.
pub proof fn happens_before_asymmetric(a: VectorClock, b: VectorClock)
    requires
        happens_before(a@, b@),
    ensures
        !happens_before(b@, a@),
{
    let k = choose|k: u128| #[trigger] get0(a@, k) < get0(b@, k);
    assert(!(get0(b@, k) <= get0(a@, k)));
}

/// Concurrency is symmetric.
pub proof fn concurrent_symmetric(a: VectorClock, b: VectorClock)
    ensures
        concurrent(a@, b@) == concurrent(b@, a@),
{
}

/// Incrementing a replica's time yields a clock the old one happens before.
pub proof fn increment_happens_after(a: VectorClock, replica_id: ReplicaId)
    requires
        get0(a@, replica_id.0) < u64::MAX,
    ensures
        happens_before(a@, a@.insert(replica_id.0, (get0(a@, replica_id.0) + 1) as u64)),
{
    let b = a@.insert(replica_id.0, (get0(a@, replica_id.0) + 1) as u64);
    assert forall|k: u128| #[trigger] get0(a@, k) <= get0(b, k) by {
    }
    assert(get0(a@, replica_id.0) < get0(b, replica_id.0));
}

/// The merge of two clocks is at or after each of them.
pub proof fn merge_is_upper_bound(a: VectorClock, b: VectorClock)
    ensures
        clock_le(a@, join(a@, b@)),
        clock_le(b@, join(a@, b@)),
{
    assert forall|k: u128| #[trigger] get0(a@, k) <= get0(join(a@, b@), k) by {
    }
    assert forall|k: u128| #[trigger] get0(b@, k) <= get0(join(a@, b@), k) by {
    }
}

/// Merging a vector clock with itself leaves it unchanged.
pub proof fn vector_clock_merge_idempotent(a: VectorClock)
    ensures
        VectorClock::merge_views(a@, a@) == a@,
{
    lemma_join_idempotent(a@);
}

/// Merging vector clocks gives the same clock in either order.
pub proof fn vector_clock_merge_commutative(a: VectorClock, b: VectorClock)
    ensures
        VectorClock::merge_views(a@, b@) == VectorClock::merge_views(b@, a@),
{
    lemma_join_commutative(a@, b@);
}

/// Merging vector clocks is associative.
pub proof fn vector_clock_merge_associative(a: VectorClock, b: VectorClock, c: VectorClock)
    ensures
        VectorClock::merge_views(VectorClock::merge_views(a@, b@), c@)
            == VectorClock::merge_views(a@, VectorClock::merge_views(b@, c@)),
{
    lemma_join_associative(a@, b@, c@);
}

} // verus!
