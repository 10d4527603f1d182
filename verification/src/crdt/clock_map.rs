//! A map from replica ids (as 128-bit values) to per-replica counters, the
//! common core of grow-only counters and vector clocks.
use std::collections::BTreeMap;
use vstd::prelude::*;
use vstd::set::fold::{is_fun_commutative, lemma_fold_empty, lemma_fold_insert};
use vstd::std_specs::btree::increasing_seq;
use vstd::std_specs::cmp::OrdSpec;
use vstd::std_specs::iter::IteratorSpec;

verus! {

/// The value a map gives a key, or 0 where the key is absent.
pub open spec fn get0(m: Map<u128, u64>, k: u128) -> u64 {
    if m.contains_key(k) {
        m[k]
    } else {
        0
    }
}

pub open spec fn max_u64(a: u64, b: u64) -> u64 {
    if a >= b {
        a
    } else {
        b
    }
}

/// Pointwise maximum of two replica maps, over the union of their keys.
pub open spec fn join(a: Map<u128, u64>, b: Map<u128, u64>) -> Map<u128, u64> {
    Map::new(
        |k: u128| a.contains_key(k) || b.contains_key(k),
        |k: u128| max_u64(get0(a, k), get0(b, k)),
    )
}

/// Every entry of `a` is at most the value `b` gives its key.
pub open spec fn entries_le(a: Map<u128, u64>, b: Map<u128, u64>) -> bool {
    forall|k: u128| a.contains_key(k) ==> #[trigger] a[k] <= get0(b, k)
}

/// Sum of the values of `m` over the keys in `s`.
pub open spec fn sum_over(m: Map<u128, u64>, s: Set<u128>) -> int {
    s.fold(0int, |acc: int, k: u128| acc + m[k])
}

/// Sum of all the values of `m`.
pub open spec fn total(m: Map<u128, u64>) -> int {
    sum_over(m, m.dom())
}

/// The entries of `m` whose value is positive.
pub open spec fn positive_entries(m: Map<u128, u64>) -> Map<u128, u64> {
    m.restrict(m.dom().filter(|k: u128| m[k] > 0))
}

/// The largest value of `m`, or 0 for the empty map.
pub open spec fn is_max_value(m: Map<u128, u64>, r: u64) -> bool {
    &&& forall|k: u128| m.contains_key(k) ==> #[trigger] m[k] <= r
    &&& (m.dom().len() == 0 ==> r == 0)
    &&& (m.dom().len() > 0 ==> exists|k: u128| m.contains_key(k) && #[trigger] m[k] == r)
}

pub open spec fn seen(s: Seq<(&u128, &u64)>, n: int, k: u128) -> bool {
    exists|j: int| 0 <= j < n && *s[j].0 == k
}

pub proof fn lemma_sum_over_insert(m: Map<u128, u64>, s: Set<u128>, k: u128)
    requires
        s.finite(),
        !s.contains(k),
    ensures
        sum_over(m, s.insert(k)) == sum_over(m, s) + m[k],
{
    let f = |acc: int, k: u128| acc + m[k];
    assert(is_fun_commutative(f));
    lemma_fold_insert(s, 0int, f, k);
}

pub proof fn lemma_sum_over_empty(m: Map<u128, u64>)
    ensures
        sum_over(m, Set::empty()) == 0,
{
    let f = |acc: int, k: u128| acc + m[k];
    lemma_fold_empty(0int, f);
}

/// Sums over a set agree for maps that agree on that set.
pub proof fn lemma_sum_over_congruent(m1: Map<u128, u64>, m2: Map<u128, u64>, s: Set<u128>)
    requires
        s.finite(),
        forall|k: u128| s.contains(k) ==> m1[k] == m2[k],
    ensures
        sum_over(m1, s) == sum_over(m2, s),
    decreases s.len(),
{
    if s.len() == 0 {
        assert(s =~= Set::empty());
        lemma_sum_over_empty(m1);
        lemma_sum_over_empty(m2);
    } else {
        let a = s.choose();
        let r = s.remove(a);
        lemma_sum_over_congruent(m1, m2, r);
        lemma_sum_over_insert(m1, r, a);
        lemma_sum_over_insert(m2, r, a);
        assert(r.insert(a) =~= s);
    }
}

/// A sum over a set is at least the sum over any subset of it.
pub proof fn lemma_sum_over_subset(m: Map<u128, u64>, s1: Set<u128>, s2: Set<u128>)
    requires
        s2.finite(),
        s1.subset_of(s2),
    ensures
        sum_over(m, s1) <= sum_over(m, s2),
    decreases s2.len(),
{
    vstd::set_lib::lemma_len_subset(s1, s2);
    if s2.len() == 0 {
        assert(s1 =~= s2);
    } else {
        let a = s2.choose();
        let r2 = s2.remove(a);
        assert(r2.insert(a) =~= s2);
        lemma_sum_over_insert(m, r2, a);
        if s1.contains(a) {
            let r1 = s1.remove(a);
            assert(r1.insert(a) =~= s1);
            lemma_sum_over_subset(m, r1, r2);
            lemma_sum_over_insert(m, r1, a);
        } else {
            lemma_sum_over_subset(m, s1, r2);
        }
    }
}

/// A sum over a set does not decrease when every summand does not decrease.
pub proof fn lemma_sum_over_pointwise_le(m1: Map<u128, u64>, m2: Map<u128, u64>, s: Set<u128>)
    requires
        s.finite(),
        forall|k: u128| s.contains(k) ==> m1[k] <= m2[k],
    ensures
        sum_over(m1, s) <= sum_over(m2, s),
    decreases s.len(),
{
    if s.len() == 0 {
        assert(s =~= Set::empty());
        lemma_sum_over_empty(m1);
        lemma_sum_over_empty(m2);
    } else {
        let a = s.choose();
        let r = s.remove(a);
        lemma_sum_over_pointwise_le(m1, m2, r);
        lemma_sum_over_insert(m1, r, a);
        lemma_sum_over_insert(m2, r, a);
        assert(r.insert(a) =~= s);
    }
}

/// Setting one entry changes the total by the difference of the new and old values.
pub proof fn lemma_total_insert(m: Map<u128, u64>, k: u128, v: u64)
    requires
        m.dom().finite(),
    ensures
        total(m.insert(k, v)) == total(m) - get0(m, k) + v,
{
    let m2 = m.insert(k, v);
    let r = m.dom().remove(k);
    lemma_sum_over_congruent(m, m2, r);
    lemma_sum_over_insert(m2, r, k);
    assert(r.insert(k) =~= m2.dom());
    if m.contains_key(k) {
        lemma_sum_over_insert(m, r, k);
        assert(r.insert(k) =~= m.dom());
    } else {
        assert(r =~= m.dom());
    }
}

/// The total of a join is at least the total of either side.
pub proof fn lemma_total_join_ge(a: Map<u128, u64>, b: Map<u128, u64>)
    requires
        a.dom().finite(),
        b.dom().finite(),
    ensures
        total(join(a, b)) >= total(a),
        total(join(a, b)) >= total(b),
{
    let j = join(a, b);
    assert(j.dom() =~= a.dom().union(b.dom()));
    lemma_sum_over_pointwise_le(a, j, a.dom());
    lemma_sum_over_subset(j, a.dom(), j.dom());
    lemma_sum_over_pointwise_le(b, j, b.dom());
    lemma_sum_over_subset(j, b.dom(), j.dom());
}

/// The total of a finite map is not negative.
pub proof fn lemma_total_nonneg(m: Map<u128, u64>)
    requires
        m.dom().finite(),
    ensures
        total(m) >= 0,
{
    lemma_sum_over_subset(m, Set::empty(), m.dom());
    lemma_sum_over_empty(m);
}

/// Joining is idempotent.
pub proof fn lemma_join_idempotent(a: Map<u128, u64>)
    ensures
        join(a, a) == a,
{
    assert(join(a, a) =~= a);
}

/// Joining is commutative.
pub proof fn lemma_join_commutative(a: Map<u128, u64>, b: Map<u128, u64>)
    ensures
        join(a, b) == join(b, a),
{
    assert(join(a, b) =~= join(b, a));
}

/// Joining is associative.
pub proof fn lemma_join_associative(a: Map<u128, u64>, b: Map<u128, u64>, c: Map<u128, u64>)
    ensures
        join(join(a, b), c) == join(a, join(b, c)),
{
    assert(join(join(a, b), c) =~= join(a, join(b, c)));
}

/// A replica-indexed map of counters.
pub struct ClockMap {
    m: BTreeMap<u128, u64>,
}

impl View for ClockMap {
    type V = Map<u128, u64>;

    closed spec fn view(&self) -> Map<u128, u64> {
        self.m@
    }
}

impl ClockMap {
    pub fn new() -> (r: ClockMap)
        ensures
            r@ == Map::<u128, u64>::empty(),
    {
        ClockMap { m: BTreeMap::new() }
    }

    pub fn copy(&self) -> (r: ClockMap)
        ensures
            r@ == self@,
    {
        ClockMap { m: self.m.clone() }
    }

    pub proof fn lemma_finite(&self)
        ensures
            self@.dom().finite(),
            self@.dom().len() <= usize::MAX,
    {
        broadcast use vstd::std_specs::btree::axiom_btree_map_view_finite_dom;
        broadcast use vstd::std_specs::btree::axiom_spec_btree_map_len;
        assert(self.m@.dom().finite());
        let _ = self.m.len();
    }

    pub fn len(&self) -> (r: usize)
        ensures
            r == self@.dom().len(),
    {
        self.m.len()
    }

    pub fn is_empty(&self) -> (r: bool)
        ensures
            r == (self@.dom().len() == 0),
    {
        proof {
            self.lemma_finite();
        }
        self.m.len() == 0
    }

    pub fn get(&self, k: u128) -> (r: u64)
        ensures
            r == get0(self@, k),
    {
        match self.m.get(&k) {
            Some(v) => *v,
            None => 0,
        }
    }

    pub fn insert(&mut self, k: u128, v: u64)
        ensures
            final(self)@ == old(self)@.insert(k, v),
    {
        self.m.insert(k, v);
    }

    pub fn insert_max(&mut self, k: u128, v: u64)
        ensures
            final(self)@ == old(self)@.insert(k, max_u64(get0(old(self)@, k), v)),
    {
        let cur = self.get(k);
        let nv = if cur >= v {
            cur
        } else {
            v
        };
        self.m.insert(k, nv);
    }

    pub fn add(&mut self, k: u128, amount: u64) -> (r: u64)
        requires
            get0(old(self)@, k) + amount <= u64::MAX,
        ensures
            r == get0(old(self)@, k) + amount,
            final(self)@ == old(self)@.insert(k, r),
    {
        let cur = self.get(k);
        let nv = cur + amount;
        self.m.insert(k, nv);
        nv
    }

    pub fn merge(&mut self, other: &ClockMap)
        ensures
            final(self)@ == join(old(self)@, other@),
    {
        let ghost start = self@;
        for kv in it: other.m.iter()
            invariant
                forall|k: u128| #[trigger]
                    self@.contains_key(k) <==> (start.contains_key(k) || seen(
                        it.seq(),
                        it.index(),
                        k,
                    )),
                forall|k: u128| #[trigger]
                    self@.contains_key(k) ==> self@[k] == (if seen(it.seq(), it.index(), k) {
                        max_u64(get0(start, k), other@[k])
                    } else {
                        start[k]
                    }),
                forall|j: int|
                    0 <= j < it.seq().len() ==> other@.contains_key(*it.seq()[j].0) && other@[*it.seq()[j].0]
                        == *it.seq()[j].1,
        {
            let k = *kv.0;
            let v = *kv.1;
            self.insert_max(k, v);
        }
        assert(self@ =~= join(start, other@));
    }

    /// Sum of all counters, as a 128-bit value (it cannot overflow).
    pub fn sum_u128(&self) -> (r: u128)
        ensures
            r == total(self@),
    {
        proof {
            self.lemma_finite();
            lemma_sum_over_empty(self@);
        }
        let ghost m = self@;
        let mut sum: u128 = 0;
        let ghost mut done: Set<u128> = Set::empty();
        for kv in it: self.m.iter()
            invariant
                m == self@,
                m.dom().finite(),
                m.dom().len() <= usize::MAX,
                it.seq().len() == m.dom().len(),
                it.seq().no_duplicates(),
                forall|j: int|
                    0 <= j < it.seq().len() ==> m.contains_key(*it.seq()[j].0) && m[*it.seq()[j].0]
                        == *it.seq()[j].1,
                done == Set::new(|k: u128| seen(it.seq(), it.index(), k)),
                done.finite(),
                done.subset_of(m.dom()),
                sum == sum_over(m, done),
                sum <= it.index() * (u64::MAX as int),
        {
            let k = *kv.0;
            let v = *kv.1;
            proof {
                let i = it.index();
                assert(*it.seq()[i].0 == k);
                if done.contains(k) {
                    let j = choose|j: int| 0 <= j < i && *it.seq()[j].0 == k;
                    assert(it.seq()[j] == it.seq()[i]);
                }
                lemma_sum_over_insert(m, done, k);
                assert(i + 1 <= usize::MAX);
                assert((i + 1) * (u64::MAX as int) <= 0x1_0000_0000_0000_0000 * (u64::MAX as int))
                    by (nonlinear_arith)
                    requires
                        i + 1 <= 0x1_0000_0000_0000_0000,
                ;
                assert(sum + v <= (i + 1) * (u64::MAX as int)) by (nonlinear_arith)
                    requires
                        sum <= i * (u64::MAX as int),
                        v <= u64::MAX,
                ;
                done = done.insert(k);
                assert(done =~= Set::new(|k: u128| seen(it.seq(), i + 1, k)));
                assert(done.subset_of(m.dom()));
            }
            sum = sum + v as u128;
        }
        proof {
            assert forall|k: u128| m.contains_key(k) implies done.contains(k) by {
                broadcast use vstd::std_specs::btree::axiom_spec_btree_map_iter;
            }
            assert(done =~= m.dom());
        }
        sum
    }

    /// Whether every entry of `self` is at most the value `other` gives its key.
    pub fn entries_le(&self, other: &ClockMap) -> (r: bool)
        ensures
            r == entries_le(self@, other@),
    {
        let ghost m = self@;
        let ghost mut done: Set<u128> = Set::empty();
        for kv in it: self.m.iter()
            invariant
                m == self@,
                forall|j: int|
                    0 <= j < it.seq().len() ==> m.contains_key(*it.seq()[j].0) && m[*it.seq()[j].0]
                        == *it.seq()[j].1,
                done == Set::new(|k: u128| seen(it.seq(), it.index(), k)),
                forall|k: u128| done.contains(k) ==> #[trigger] m[k] <= get0(other@, k),
        {
            let k = *kv.0;
            let v = *kv.1;
            if v > other.get(k) {
                proof {
                    assert(m.contains_key(k) && m[k] > get0(other@, k));
                }
                return false;
            }
            proof {
                done = done.insert(k);
                assert(done =~= Set::new(|k: u128| seen(it.seq(), it.index() + 1, k)));
            }
        }
        proof {
            assert forall|k: u128| m.contains_key(k) implies done.contains(k) by {
                broadcast use vstd::std_specs::btree::axiom_spec_btree_map_iter;
            }
        }
        true
    }

    /// Whether some key of `self` has a smaller value in `self` than in `other`.
    pub fn some_entry_lt(&self, other: &ClockMap) -> (r: bool)
        ensures
            r == exists|k: u128| self@.contains_key(k) && #[trigger] get0(self@, k) < get0(other@, k),
    {
        let ghost m = self@;
        let ghost mut done: Set<u128> = Set::empty();
        for kv in it: self.m.iter()
            invariant
                m == self@,
                forall|j: int|
                    0 <= j < it.seq().len() ==> m.contains_key(*it.seq()[j].0) && m[*it.seq()[j].0]
                        == *it.seq()[j].1,
                done == Set::new(|k: u128| seen(it.seq(), it.index(), k)),
                forall|k: u128| done.contains(k) ==> !(#[trigger] get0(m, k) < get0(other@, k)),
        {
            let k = *kv.0;
            let v = *kv.1;
            if v < other.get(k) {
                proof {
                    assert(m.contains_key(k) && get0(m, k) < get0(other@, k));
                }
                return true;
            }
            proof {
                done = done.insert(k);
                assert(done =~= Set::new(|k: u128| seen(it.seq(), it.index() + 1, k)));
            }
        }
        proof {
            assert forall|k: u128| m.contains_key(k) implies done.contains(k) by {
                broadcast use vstd::std_specs::btree::axiom_spec_btree_map_iter;
            }
        }
        false
    }

    /// Whether a key is present.
    pub fn contains(&self, k: u128) -> (r: bool)
        ensures
            r == self@.contains_key(k),
    {
        self.m.contains_key(&k)
    }

    /// Whether some key of `self` is missing from `other` or has a larger
    /// value in `self` than in `other`.
    pub fn some_entry_unmatched(&self, other: &ClockMap) -> (r: bool)
        ensures
            r == exists|k: u128|
                #[trigger] self@.contains_key(k) && (!other@.contains_key(k) || self@[k] > other@[k]),
    {
        let ghost m = self@;
        let ghost mut done: Set<u128> = Set::empty();
        for kv in it: self.m.iter()
            invariant
                m == self@,
                forall|j: int|
                    0 <= j < it.seq().len() ==> m.contains_key(*it.seq()[j].0) && m[*it.seq()[j].0]
                        == *it.seq()[j].1,
                done == Set::new(|k: u128| seen(it.seq(), it.index(), k)),
                forall|k: u128|
                    #[trigger] done.contains(k) ==> m.contains_key(k) && other@.contains_key(k) && m[k]
                        <= other@[k],
        {
            let k = *kv.0;
            let v = *kv.1;
            proof {
                let i = it.index();
                assert(*it.seq()[i].0 == k);
                assert(m[k] == v);
            }
            if !other.contains(k) || v > other.get(k) {
                proof {
                    assert(m.contains_key(k) && (!other@.contains_key(k) || m[k] > other@[k]));
                }
                return true;
            }
            proof {
                done = done.insert(k);
                assert(done =~= Set::new(|k: u128| seen(it.seq(), it.index() + 1, k)));
            }
        }
        proof {
            assert forall|k: u128| m.contains_key(k) implies done.contains(k) by {
                broadcast use vstd::std_specs::btree::axiom_spec_btree_map_iter;
            }
            assert forall|k: u128| #[trigger] m.contains_key(k) implies !(!other@.contains_key(k) || m[k] > other@[k]) by {
                assert(done.contains(k));
            }
            assert(!(exists|k: u128| #[trigger] m.contains_key(k) && (!other@.contains_key(k) || m[k] > other@[k])));
        }
        false
    }

    /// Whether some key of `self` has a larger value in `self` than in `other`.
    pub fn some_entry_gt(&self, other: &ClockMap) -> (r: bool)
        ensures
            r == exists|k: u128| self@.contains_key(k) && #[trigger] get0(self@, k) > get0(other@, k),
    {
        let ghost m = self@;
        let ghost mut done: Set<u128> = Set::empty();
        for kv in it: self.m.iter()
            invariant
                m == self@,
                forall|j: int|
                    0 <= j < it.seq().len() ==> m.contains_key(*it.seq()[j].0) && m[*it.seq()[j].0]
                        == *it.seq()[j].1,
                done == Set::new(|k: u128| seen(it.seq(), it.index(), k)),
                forall|k: u128| done.contains(k) ==> !(#[trigger] get0(m, k) > get0(other@, k)),
        {
            let k = *kv.0;
            let v = *kv.1;
            if v > other.get(k) {
                proof {
                    assert(m.contains_key(k) && get0(m, k) > get0(other@, k));
                }
                return true;
            }
            proof {
                done = done.insert(k);
                assert(done =~= Set::new(|k: u128| seen(it.seq(), it.index() + 1, k)));
            }
        }
        proof {
            assert forall|k: u128| m.contains_key(k) implies done.contains(k) by {
                broadcast use vstd::std_specs::btree::axiom_spec_btree_map_iter;
            }
        }
        false
    }

    /// Whether the two maps hold the same entries.
    pub fn same_entries(&self, other: &ClockMap) -> (r: bool)
        ensures
            r == (self@ == other@),
    {
        proof {
            self.lemma_finite();
            other.lemma_finite();
        }
        if self.m.len() != other.m.len() {
            return false;
        }
        let ghost m = self@;
        let ghost mut done: Set<u128> = Set::empty();
        for kv in it: self.m.iter()
            invariant
                m == self@,
                m.dom().finite(),
                other@.dom().finite(),
                m.dom().len() == other@.dom().len(),
                forall|j: int|
                    0 <= j < it.seq().len() ==> m.contains_key(*it.seq()[j].0) && m[*it.seq()[j].0]
                        == *it.seq()[j].1,
                done == Set::new(|k: u128| seen(it.seq(), it.index(), k)),
                forall|k: u128| done.contains(k) ==> other@.contains_key(k) && other@[k] == #[trigger] m[k],
        {
            let k = *kv.0;
            let v = *kv.1;
            match other.m.get(&k) {
                Some(w) => {
                    if *w != v {
                        return false;
                    }
                },
                None => {
                    return false;
                },
            }
            proof {
                done = done.insert(k);
                assert(done =~= Set::new(|k: u128| seen(it.seq(), it.index() + 1, k)));
            }
        }
        proof {
            assert forall|k: u128| m.contains_key(k) implies done.contains(k) by {
                broadcast use vstd::std_specs::btree::axiom_spec_btree_map_iter;
            }
            assert forall|k: u128| m.contains_key(k) implies other@.contains_key(k) && other@[k] == m[k] by {
                assert(done.contains(k));
            }
            assert(m.dom().subset_of(other@.dom()));
            vstd::set_lib::lemma_subset_equality(m.dom(), other@.dom());
            assert(m =~= other@);
        }
        true
    }

    /// The largest counter, or 0 when there is none.
    pub fn max_value(&self) -> (r: u64)
        ensures
            is_max_value(self@, r),
    {
        proof {
            self.lemma_finite();
        }
        let ghost m = self@;
        let ghost mut done: Set<u128> = Set::empty();
        let mut best: u64 = 0;
        let mut first = true;
        for kv in it: self.m.iter()
            invariant
                m == self@,
                m.dom().finite(),
                forall|j: int|
                    0 <= j < it.seq().len() ==> m.contains_key(*it.seq()[j].0) && m[*it.seq()[j].0]
                        == *it.seq()[j].1,
                done == Set::new(|k: u128| seen(it.seq(), it.index(), k)),
                forall|k: u128| done.contains(k) ==> #[trigger] m[k] <= best,
                done.len() == 0 ==> best == 0,
                done.len() > 0 ==> exists|k: u128| done.contains(k) && #[trigger] m[k] == best,
                done.subset_of(m.dom()),
                done.finite(),
                first == (it.index() == 0),
        {
            let k = *kv.0;
            let v = *kv.1;
            let ghost old_best = best;
            let ghost old_done = done;
            if v > best || first {
                best = v;
            }
            first = false;
            proof {
                done = done.insert(k);
                assert(done =~= Set::new(|k: u128| seen(it.seq(), it.index() + 1, k)));
                assert(done.contains(k));
                if it.index() == 0 {
                    assert(old_done =~= Set::empty());
                } else {
                    assert(old_done.contains(*it.seq()[0].0));
                    assert(old_done.len() > 0);
                }
            }
        }
        proof {
            assert forall|k: u128| m.contains_key(k) implies done.contains(k) by {
                broadcast use vstd::std_specs::btree::axiom_spec_btree_map_iter;
            }
            assert(done =~= m.dom());
        }
        best
    }

    /// The entries whose counter is positive.
    pub fn positive_part(&self) -> (r: ClockMap)
        ensures
            r@ == positive_entries(self@),
    {
        let ghost m = self@;
        let ghost mut done: Set<u128> = Set::empty();
        let mut out = ClockMap::new();
        for kv in it: self.m.iter()
            invariant
                m == self@,
                forall|j: int|
                    0 <= j < it.seq().len() ==> m.contains_key(*it.seq()[j].0) && m[*it.seq()[j].0]
                        == *it.seq()[j].1,
                done == Set::new(|k: u128| seen(it.seq(), it.index(), k)),
                forall|k: u128| #[trigger]
                    out@.contains_key(k) <==> (m.contains_key(k) && m[k] > 0 && done.contains(k)),
                forall|k: u128| #[trigger] out@.contains_key(k) ==> out@[k] == m[k],
        {
            let k = *kv.0;
            let v = *kv.1;
            if v > 0 {
                out.insert(k, v);
            }
            proof {
                done = done.insert(k);
                assert(done =~= Set::new(|k: u128| seen(it.seq(), it.index() + 1, k)));
            }
        }
        proof {
            assert forall|k: u128| m.contains_key(k) implies done.contains(k) by {
                broadcast use vstd::std_specs::btree::axiom_spec_btree_map_iter;
            }
            assert(out@ =~= positive_entries(m));
        }
        out
    }

    /// The keys, in increasing order.
    pub fn keys(&self) -> (r: Vec<u128>)
        ensures
            r@.to_set() == self@.dom(),
            r@.no_duplicates(),
            forall|i: int, j: int| 0 <= i < j < r@.len() ==> r@[i] < r@[j],
    {
        let ghost m = self@;
        let ghost mut done: Set<u128> = Set::empty();
        let mut out: Vec<u128> = Vec::new();
        let iter = self.m.iter();
        proof {
            broadcast use vstd::laws_cmp::group_laws_cmp;
            broadcast use vstd::std_specs::btree::axiom_key_obeys_cmp_spec_meaning;
            broadcast use vstd::std_specs::btree::axiom_increasing_seq_meaning;
            let ks = iter.remaining().map_values(|kv: (&u128, &u64)| *kv.0);
            assert(increasing_seq(ks));
            assert forall|a: int, b: int| 0 <= a < b < iter.remaining().len() implies *iter.remaining()[a].0 < *iter.remaining()[b].0 by {
                assert(ks[a] == *iter.remaining()[a].0);
                assert(ks[b] == *iter.remaining()[b].0);
                assert(ks[a].cmp_spec(&ks[b]) is Less);
            }
        }
        for kv in it: iter
            invariant
                m == self@,
                it.seq().no_duplicates(),
                forall|j: int|
                    0 <= j < it.seq().len() ==> m.contains_key(*it.seq()[j].0) && m[*it.seq()[j].0]
                        == *it.seq()[j].1,
                done == Set::new(|k: u128| seen(it.seq(), it.index(), k)),
                out@.to_set() == done,
                out@.no_duplicates(),
                out@.len() == it.index(),
                forall|j: int| 0 <= j < it.index() ==> out@[j] == *it.seq()[j].0,
                forall|a: int, b: int| 0 <= a < b < it.seq().len() ==> *it.seq()[a].0 < *it.seq()[b].0,
        {
            let k = *kv.0;
            proof {
                let i = it.index();
                if done.contains(k) {
                    let j = choose|j: int| 0 <= j < i && *it.seq()[j].0 == k;
                    assert(it.seq()[j] == it.seq()[i]);
                }
            }
            out.push(k);
            proof {
                done = done.insert(k);
                assert(done =~= Set::new(|k: u128| seen(it.seq(), it.index() + 1, k)));
                broadcast use vstd::seq_lib::group_seq_properties;
                assert(out@.to_set() =~= done);
            }
        }
        proof {
            assert forall|k: u128| m.contains_key(k) implies done.contains(k) by {
                broadcast use vstd::std_specs::btree::axiom_spec_btree_map_iter;
            }
            assert(done =~= m.dom());
        }
        out
    }

    /// A standard-library copy of the entries.
    pub fn to_btree_map(&self) -> (r: BTreeMap<u128, u64>)
        ensures
            r@ == self@,
    {
        self.m.clone()
    }
}

} // verus!
