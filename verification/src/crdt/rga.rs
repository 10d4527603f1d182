//! Replicated growable array (RGA): elements keyed and ordered by the hybrid
//! timestamps of their insertion, each with a removal mark.
use crate::crdt::{hts_lt, HybridTimestamp, PhysicalTimestamp, ReplicaId, StateCRDT, CRDT};
use vstd::laws_eq::obeys_concrete_eq;
use vstd::prelude::*;

verus! {

/// An element with the timestamp of its insertion and its removal mark.
#[derive(Debug, Clone, Copy)]
pub struct RGAElement<T: Copy> {
    pub value: T,
    pub timestamp: HybridTimestamp,
    pub removed: bool,
}

/// A sequence whose elements are ordered by insertion timestamp.
pub struct RGA<T: Copy + PartialEq> {
    elements: Vec<RGAElement<T>>,
}

/// The elements keyed by timestamp: (value, removed).
pub open spec fn elements_map<T: Copy>(s: Seq<RGAElement<T>>) -> Map<HybridTimestamp, (T, bool)> {
    Map::new(
        |t: HybridTimestamp| exists|i: int| 0 <= i < s.len() && s[i].timestamp == t,
        |t: HybridTimestamp|
            {
                let i = choose|i: int| 0 <= i < s.len() && s[i].timestamp == t;
                (s[i].value, s[i].removed)
            },
    )
}

/// The elements are in strictly increasing order of timestamp.
pub open spec fn strictly_ordered<T: Copy>(s: Seq<RGAElement<T>>) -> bool {
    forall|i: int, j: int| 0 <= i < j < s.len() ==> hts_lt(#[trigger] s[i].timestamp, #[trigger] s[j].timestamp)
}

/// The values of the elements not removed, in order.
pub open spec fn visible<T: Copy>(s: Seq<RGAElement<T>>) -> Seq<T>
    decreases s.len(),
{
    if s.len() == 0 {
        Seq::empty()
    } else if s.last().removed {
        visible(s.drop_last())
    } else {
        visible(s.drop_last()).push(s.last().value)
    }
}

/// The state after merging `b` into `a`: every element of either, an element
/// of both keeping the value of `a` and removed where either removed it.
pub open spec fn rga_merge<T>(a: Map<HybridTimestamp, (T, bool)>, b: Map<HybridTimestamp, (T, bool)>) -> Map<
    HybridTimestamp,
    (T, bool),
> {
    Map::new(
        |t: HybridTimestamp| a.contains_key(t) || b.contains_key(t),
        |t: HybridTimestamp|
            if a.contains_key(t) {
                (a[t].0, a[t].1 || (b.contains_key(t) && b[t].1))
            } else {
                b[t]
            },
    )
}

/// The visible values are exactly the values of the elements not removed,
/// in order: one value for each such element, none dropped, merged or added.
pub proof fn visible_is_unremoved_values<T: Copy>(s: Seq<RGAElement<T>>)
    ensures
        visible(s) == s.filter(|e: RGAElement<T>| !e.removed).map_values(|e: RGAElement<T>| e.value),
    decreases s.len(),
{
    reveal(Seq::filter);
    let f = |e: RGAElement<T>| !e.removed;
    let g = |e: RGAElement<T>| e.value;
    if s.len() > 0 {
        visible_is_unremoved_values(s.drop_last());
        let rest = s.drop_last().filter(f);
        assert(s.filter(f) == (if f(s.last()) { rest.push(s.last()) } else { rest }));
        if !s.last().removed {
            assert(rest.push(s.last()).map_values(g) =~= rest.map_values(g).push(s.last().value));
        }
    } else {
        assert(s.filter(f).map_values(g) =~= Seq::<T>::empty());
    }
}

/// Strict order of hybrid timestamps is total.
pub proof fn lemma_hts_total(a: HybridTimestamp, b: HybridTimestamp)
    ensures
        hts_lt(a, b) || hts_lt(b, a) || a == b,
        !(hts_lt(a, b) && hts_lt(b, a)),
{
}

impl<T: Copy + PartialEq> View for RGA<T> {
    type V = Map<HybridTimestamp, (T, bool)>;

    closed spec fn view(&self) -> Map<HybridTimestamp, (T, bool)> {
        elements_map(self.elements@)
    }
}

impl<T: Copy + PartialEq> RGA<T> {
    #[verifier::type_invariant]
    closed spec fn well_formed(&self) -> bool {
        &&& strictly_ordered(self.elements@)
        &&& obeys_concrete_eq::<T>()
    }

    /// The elements in order of timestamp.
    pub closed spec fn ordered(&self) -> Seq<RGAElement<T>> {
        self.elements@
    }

    /// An empty sequence.
    pub fn new() -> (r: RGA<T>)
        requires
            obeys_concrete_eq::<T>(),
        ensures
            r@ == Map::<HybridTimestamp, (T, bool)>::empty(),
    {
        let r = RGA { elements: Vec::new() };
        assert(r@ =~= Map::<HybridTimestamp, (T, bool)>::empty());
        r
    }

    /// Put an element in its place by timestamp, replacing any element with
    /// the same timestamp.
    fn place(elements: &mut Vec<RGAElement<T>>, e: RGAElement<T>)
        requires
            strictly_ordered(old(elements)@),
        ensures
            strictly_ordered(final(elements)@),
            elements_map(final(elements)@) == elements_map(old(elements)@).insert(
                e.timestamp,
                (e.value, e.removed),
            ),
    {
        let ghost s = elements@;
        let mut i: usize = 0;
        while i < elements.len() && elements[i].timestamp.less_than(&e.timestamp)
            invariant
                s == elements@,
                i <= s.len(),
                forall|j: int| 0 <= j < i ==> hts_lt(#[trigger] s[j].timestamp, e.timestamp),
            decreases s.len() - i,
        {
            i = i + 1;
        }
        let replace = i < elements.len() && !e.timestamp.less_than(&elements[i].timestamp);
        if replace {
            proof {
                lemma_hts_total(s[i as int].timestamp, e.timestamp);
            }
            elements.set(i, e);
            proof {
                let t = elements@;
                assert forall|a: int, b: int| 0 <= a < b < t.len() implies hts_lt(#[trigger] t[a].timestamp, #[trigger] t[b].timestamp) by {
                    assert(hts_lt(s[a].timestamp, s[b].timestamp));
                }
                assert(elements_map(t) =~= elements_map(s).insert(e.timestamp, (e.value, e.removed))) by {
                    assert forall|k: HybridTimestamp| #[trigger] elements_map(t).contains_key(k) implies elements_map(t)[k] == elements_map(s).insert(e.timestamp, (e.value, e.removed))[k] by {
                        let w = choose|w: int| 0 <= w < t.len() && t[w].timestamp == k;
                        if k != e.timestamp {
                            let v = choose|v: int| 0 <= v < s.len() && s[v].timestamp == k;
                            lemma_unique_position(t, w, v);
                            assert(t[v] == s[v]);
                        } else {
                            lemma_unique_position(t, w, i as int);
                        }
                    }
                    assert forall|k: HybridTimestamp| elements_map(s).insert(e.timestamp, (e.value, e.removed)).contains_key(k) implies #[trigger] elements_map(t).contains_key(k) by {
                        if k != e.timestamp {
                            let v = choose|v: int| 0 <= v < s.len() && s[v].timestamp == k;
                            assert(t[v] == s[v]);
                        } else {
                            assert(t[i as int].timestamp == k);
                        }
                    }
                }
            }
        } else {
            elements.insert(i, e);
            proof {
                let t = elements@;
                assert forall|a: int, b: int| 0 <= a < b < t.len() implies hts_lt(#[trigger] t[a].timestamp, #[trigger] t[b].timestamp) by {
                    if b < i {
                        assert(hts_lt(s[a].timestamp, s[b].timestamp));
                    } else if b == i {
                        assert(hts_lt(s[a].timestamp, e.timestamp));
                    } else if a < i {
                        assert(hts_lt(s[a].timestamp, e.timestamp));
                        assert(!hts_lt(s[i as int].timestamp, e.timestamp));
                        lemma_hts_total(s[i as int].timestamp, e.timestamp);
                        if a < i {
                            assert(hts_lt(s[a].timestamp, s[b - 1].timestamp) || a == b - 1);
                        }
                    } else if a == i {
                        assert(e.timestamp != s[i as int].timestamp || true);
                        lemma_hts_total(s[i as int].timestamp, e.timestamp);
                        if b - 1 > i {
                            assert(hts_lt(s[i as int].timestamp, s[b - 1].timestamp));
                        }
                    } else {
                        assert(hts_lt(s[a - 1].timestamp, s[b - 1].timestamp));
                    }
                }
                assert(elements_map(t) =~= elements_map(s).insert(e.timestamp, (e.value, e.removed))) by {
                    assert forall|k: HybridTimestamp| #[trigger] elements_map(t).contains_key(k) implies elements_map(t)[k] == elements_map(s).insert(e.timestamp, (e.value, e.removed))[k] by {
                        let w = choose|w: int| 0 <= w < t.len() && t[w].timestamp == k;
                        if k != e.timestamp {
                            let v = choose|v: int| 0 <= v < s.len() && s[v].timestamp == k;
                            let v2 = if v < i { v } else { v + 1 };
                            assert(t[v2] == s[v]);
                            lemma_unique_position(t, w, v2);
                        } else {
                            assert(t[i as int] == e);
                            lemma_unique_position(t, w, i as int);
                        }
                    }
                    assert forall|k: HybridTimestamp| elements_map(s).insert(e.timestamp, (e.value, e.removed)).contains_key(k) implies #[trigger] elements_map(t).contains_key(k) by {
                        if k != e.timestamp {
                            let v = choose|v: int| 0 <= v < s.len() && s[v].timestamp == k;
                            let v2 = if v < i { v } else { v + 1 };
                            assert(t[v2] == s[v]);
                        } else {
                            assert(t[i as int].timestamp == k);
                        }
                    }
                }
            }
        }
    }

    /// Insert a value, stamped now by a replica.
    pub fn insert(&mut self, value: T, replica_id: ReplicaId)
        ensures
            exists|t: HybridTimestamp|
                t.replica_id == replica_id && t.logical == 0 && final(self)@ == old(self)@.insert(
                    t,
                    (value, false),
                ),
    {
        let timestamp = HybridTimestamp::new(replica_id);
        self.insert_at(value, replica_id, timestamp.physical);
    }

    /// Insert a value stamped at time `now` by a replica, replacing any
    /// element with the same timestamp.
    pub fn insert_at(&mut self, value: T, replica_id: ReplicaId, now: PhysicalTimestamp)
        ensures
            final(self)@ == old(self)@.insert(
                HybridTimestamp { physical: now, logical: 0, replica_id },
                (value, false),
            ),
    {
        proof {
            use_type_invariant(&*self);
        }
        let timestamp = HybridTimestamp::new_at(replica_id, now);
        let e = RGAElement { value, timestamp, removed: false };
        let mut elements = Vec::new();
        std::mem::swap(&mut elements, &mut self.elements);
        Self::place(&mut elements, e);
        self.elements = elements;
    }

    /// The values not removed, in order of timestamp.
    pub fn values(&self) -> (r: Vec<T>)
        ensures
            r@ == visible(self.ordered()),
            r@ == self.ordered().filter(|e: RGAElement<T>| !e.removed).map_values(
                |e: RGAElement<T>| e.value,
            ),
    {
        let ghost s = self.elements@;
        let mut out: Vec<T> = Vec::new();
        let mut i: usize = 0;
        while i < self.elements.len()
            invariant
                s == self.elements@,
                i <= s.len(),
                out@ == visible(s.take(i as int)),
            decreases s.len() - i,
        {
            proof {
                assert(s.take(i + 1).drop_last() =~= s.take(i as int));
            }
            if !self.elements[i].removed {
                out.push(self.elements[i].value);
            }
            i = i + 1;
        }
        proof {
            assert(s.take(i as int) =~= s);
            visible_is_unremoved_values(s);
        }
        out
    }

    /// The ordered elements agree with the view.
    pub proof fn lemma_ordered_view(&self)
        ensures
            elements_map(self.ordered()) == self@,
    {
    }
}

/// In a strictly ordered sequence, a timestamp has one position.
pub proof fn lemma_unique_position<T: Copy>(s: Seq<RGAElement<T>>, a: int, b: int)
    requires
        strictly_ordered(s),
        0 <= a < s.len(),
        0 <= b < s.len(),
        s[a].timestamp == s[b].timestamp,
    ensures
        a == b,
{
    if a < b {
        assert(hts_lt(s[a].timestamp, s[b].timestamp));
    } else if b < a {
        assert(hts_lt(s[b].timestamp, s[a].timestamp));
    }
}

impl<T: Copy + PartialEq> CRDT for RGA<T> {
    open spec fn merge_views(
        a: Map<HybridTimestamp, (T, bool)>,
        b: Map<HybridTimestamp, (T, bool)>,
    ) -> Map<HybridTimestamp, (T, bool)> {
        rga_merge(a, b)
    }

    fn merge(&mut self, other: &Self) {
        proof {
            use_type_invariant(&*self);
            use_type_invariant(other);
        }
        let ghost start = self@;
        let ghost o = other.elements@;
        let mut elements = Vec::new();
        std::mem::swap(&mut elements, &mut self.elements);
        let mut i: usize = 0;
        while i < other.elements.len()
            invariant
                o == other.elements@,
                strictly_ordered(o),
                strictly_ordered(elements@),
                i <= o.len(),
                elements_map(elements@) == rga_merge(start, elements_map(o.take(i as int))),
            decreases o.len() - i,
        {
            let oe = other.elements[i];
            let ghost before = elements@;
            let ghost pre = o.take(i as int);
            let ghost nx = o.take(i + 1);
            let ghost prefix = elements_map(pre);
            let ghost next = elements_map(nx);
            proof {
                assert(nx =~= pre.push(oe));
                assert(!prefix.contains_key(oe.timestamp)) by {
                    if prefix.contains_key(oe.timestamp) {
                        let w = choose|w: int| 0 <= w < pre.len() && pre[w].timestamp == oe.timestamp;
                        lemma_unique_position(o, w, i as int);
                    }
                }
                assert(next =~= prefix.insert(oe.timestamp, (oe.value, oe.removed))) by {
                    assert forall|k: HybridTimestamp| #[trigger] next.contains_key(k) implies next[k] == prefix.insert(oe.timestamp, (oe.value, oe.removed))[k] by {
                        let w = choose|w: int| 0 <= w < nx.len() && nx[w].timestamp == k;
                        if k == oe.timestamp {
                            lemma_unique_position(o, w, i as int);
                        } else {
                            let v = choose|v: int| 0 <= v < pre.len() && pre[v].timestamp == k;
                            lemma_unique_position(o, w, v);
                        }
                    }
                    assert forall|k: HybridTimestamp| prefix.insert(oe.timestamp, (oe.value, oe.removed)).contains_key(k) implies #[trigger] next.contains_key(k) by {
                        if k == oe.timestamp {
                            assert(nx[i as int].timestamp == k);
                        } else {
                            let v = choose|v: int| 0 <= v < pre.len() && pre[v].timestamp == k;
                            assert(nx[v] == pre[v]);
                        }
                    }
                }
            }
            let mut j: usize = 0;
            let mut found = false;
            while j < elements.len() && !found
                invariant
                    before == elements@,
                    j <= before.len(),
                    found ==> j < before.len() && before[j as int].timestamp == oe.timestamp,
                    !found ==> forall|q: int| 0 <= q < j ==> before[q].timestamp != oe.timestamp,
                decreases before.len() - j + (if found { 0int } else { 1int }),
            {
                let t = elements[j].timestamp;
                if !t.less_than(&oe.timestamp) && !oe.timestamp.less_than(&t) {
                    proof {
                        lemma_hts_total(t, oe.timestamp);
                    }
                    found = true;
                } else {
                    j = j + 1;
                }
            }
            if found {
                let cur = elements[j];
                let upd = RGAElement { value: cur.value, timestamp: cur.timestamp, removed: cur.removed || oe.removed };
                proof {
                    assert(elements_map(before).contains_key(oe.timestamp));
                    let w = choose|w: int| 0 <= w < before.len() && before[w].timestamp == oe.timestamp;
                    lemma_unique_position(before, w, j as int);
                    assert(elements_map(before)[oe.timestamp] == (cur.value, cur.removed));
                }
                Self::place(&mut elements, upd);
                proof {
                    let m1 = elements_map(elements@);
                    let goal = rga_merge(start, next);
                    assert forall|k: HybridTimestamp| #[trigger] m1.contains_key(k) implies m1[k] == goal[k] by {
                        if k == oe.timestamp {
                            assert(start.contains_key(k));
                        }
                    }
                    assert(m1 =~= goal);
                }
            } else {
                proof {
                    assert(!elements_map(before).contains_key(oe.timestamp)) by {
                        if elements_map(before).contains_key(oe.timestamp) {
                            let w = choose|w: int| 0 <= w < before.len() && before[w].timestamp == oe.timestamp;
                            assert(before[w].timestamp != oe.timestamp);
                        }
                    }
                }
                Self::place(&mut elements, oe);
                proof {
                    let m1 = elements_map(elements@);
                    let goal = rga_merge(start, next);
                    assert forall|k: HybridTimestamp| #[trigger] m1.contains_key(k) implies m1[k] == goal[k] by {
                        if k == oe.timestamp {
                            assert(!start.contains_key(k));
                        }
                    }
                    assert(m1 =~= goal);
                }
            }
            i = i + 1;
        }
        proof {
            assert(o.take(i as int) =~= o);
        }
        self.elements = elements;
    }

    fn same_state(&self, other: &Self) -> (r: bool) {
        proof {
            use_type_invariant(self);
            use_type_invariant(other);
            reveal(obeys_concrete_eq);
        }
        let ghost a = self.elements@;
        let ghost b = other.elements@;
        if self.elements.len() != other.elements.len() {
            proof {
                if self@ == other@ {
                    lemma_same_map_same_seq(a, b);
                }
            }
            return false;
        }
        let mut i: usize = 0;
        while i < self.elements.len()
            invariant
                obeys_concrete_eq::<T>(),
                a == self.elements@,
                b == other.elements@,
                a.len() == b.len(),
                strictly_ordered(a),
                strictly_ordered(b),
                i <= a.len(),
                forall|j: int| 0 <= j < i ==> a[j] == b[j],
            decreases a.len() - i,
        {
            proof {
                reveal(obeys_concrete_eq);
            }
            let x = self.elements[i];
            let y = other.elements[i];
            let same_time = !x.timestamp.less_than(&y.timestamp) && !y.timestamp.less_than(&x.timestamp);
            proof {
                lemma_hts_total(x.timestamp, y.timestamp);
            }
            if !(same_time && x.value == y.value && x.removed == y.removed) {
                proof {
                    if self@ == other@ {
                        lemma_same_map_same_seq(a, b);
                        assert(a[i as int] == b[i as int]);
                    }
                }
                return false;
            }
            i = i + 1;
        }
        proof {
            assert(a =~= b);
        }
        true
    }

    fn duplicate(&self) -> (r: Self) {
        proof {
            use_type_invariant(self);
        }
        let mut out: Vec<RGAElement<T>> = Vec::new();
        let mut i: usize = 0;
        while i < self.elements.len()
            invariant
                i <= self.elements@.len(),
                out@ == self.elements@.take(i as int),
            decreases self.elements@.len() - i,
        {
            out.push(self.elements[i]);
            proof {
                assert(out@ =~= self.elements@.take(i + 1));
            }
            i = i + 1;
        }
        proof {
            assert(out@ =~= self.elements@);
        }
        RGA { elements: out }
    }
}

/// Two strictly ordered sequences with the same elements by timestamp are
/// the same sequence.
pub proof fn lemma_same_map_same_seq<T: Copy>(a: Seq<RGAElement<T>>, b: Seq<RGAElement<T>>)
    requires
        strictly_ordered(a),
        strictly_ordered(b),
        elements_map(a) == elements_map(b),
    ensures
        a == b,
    decreases a.len() + b.len(),
{
    if a.len() == 0 || b.len() == 0 {
        if a.len() > 0 {
            assert(elements_map(a).contains_key(a[0].timestamp));
        }
        if b.len() > 0 {
            assert(elements_map(b).contains_key(b[0].timestamp));
        }
        assert(a =~= b);
    } else {
        let ta = a.last().timestamp;
        let tb = b.last().timestamp;
        assert(elements_map(a).contains_key(ta));
        assert(elements_map(b).contains_key(tb));
        let wb = choose|w: int| 0 <= w < b.len() && b[w].timestamp == ta;
        let wa = choose|w: int| 0 <= w < a.len() && a[w].timestamp == tb;
        if wb < b.len() - 1 {
            assert(hts_lt(b[wb].timestamp, tb));
            assert(hts_lt(a[wa].timestamp, ta) || wa == a.len() - 1);
            lemma_hts_total(ta, tb);
        }
        if wa < a.len() - 1 {
            assert(hts_lt(a[wa].timestamp, ta));
            lemma_hts_total(ta, tb);
        }
        assert(ta == tb);
        let a2 = a.drop_last();
        let b2 = b.drop_last();
        assert(strictly_ordered(a2));
        assert(strictly_ordered(b2));
        assert(elements_map(a2) =~= elements_map(a).remove(ta)) by {
            assert forall|k: HybridTimestamp| #[trigger] elements_map(a2).contains_key(k) implies k != ta && elements_map(a2)[k] == elements_map(a)[k] by {
                let w = choose|w: int| 0 <= w < a2.len() && a2[w].timestamp == k;
                let v = choose|v: int| 0 <= v < a.len() && a[v].timestamp == k;
                lemma_unique_position(a, w, v);
                assert(hts_lt(a[w].timestamp, ta));
            }
            assert forall|k: HybridTimestamp| elements_map(a).remove(ta).contains_key(k) implies #[trigger] elements_map(a2).contains_key(k) by {
                let v = choose|v: int| 0 <= v < a.len() && a[v].timestamp == k;
                assert(v != a.len() - 1);
                assert(a2[v] == a[v]);
            }
        }
        assert(elements_map(b2) =~= elements_map(b).remove(tb)) by {
            assert forall|k: HybridTimestamp| #[trigger] elements_map(b2).contains_key(k) implies k != tb && elements_map(b2)[k] == elements_map(b)[k] by {
                let w = choose|w: int| 0 <= w < b2.len() && b2[w].timestamp == k;
                let v = choose|v: int| 0 <= v < b.len() && b[v].timestamp == k;
                lemma_unique_position(b, w, v);
                assert(hts_lt(b[w].timestamp, tb));
            }
            assert forall|k: HybridTimestamp| elements_map(b).remove(tb).contains_key(k) implies #[trigger] elements_map(b2).contains_key(k) by {
                let v = choose|v: int| 0 <= v < b.len() && b[v].timestamp == k;
                assert(v != b.len() - 1);
                assert(b2[v] == b[v]);
            }
        }
        lemma_same_map_same_seq(a2, b2);
        let la = a.len() - 1;
        let lb = b.len() - 1;
        let ca = choose|w: int| 0 <= w < a.len() && a[w].timestamp == ta;
        lemma_unique_position(a, ca, la);
        let cb = choose|w: int| 0 <= w < b.len() && b[w].timestamp == tb;
        lemma_unique_position(b, cb, lb);
        assert(elements_map(a)[ta] == (a[la].value, a[la].removed));
        assert(elements_map(b)[tb] == (b[lb].value, b[lb].removed));
        assert(a =~= a2.push(a.last()));
        assert(b =~= b2.push(b.last()));
    }
}

impl<T: Copy + PartialEq> StateCRDT for RGA<T> {
}

/// Merging a sequence with itself leaves it unchanged.
pub proof fn rga_merge_idempotent<T>(a: Map<HybridTimestamp, (T, bool)>)
    ensures
        rga_merge(a, a) == a,
{
    assert(rga_merge(a, a) =~= a);
}

/// Merging sequences is associative.
pub proof fn rga_merge_associative<T>(
    a: Map<HybridTimestamp, (T, bool)>,
    b: Map<HybridTimestamp, (T, bool)>,
    c: Map<HybridTimestamp, (T, bool)>,
)
    ensures
        rga_merge(rga_merge(a, b), c) == rga_merge(a, rga_merge(b, c)),
{
    assert(rga_merge(rga_merge(a, b), c) =~= rga_merge(a, rga_merge(b, c)));
}

/// Merging sequences gives the same state in either order where elements
/// with the same timestamp hold the same value.
pub proof fn rga_merge_commutative<T>(a: Map<HybridTimestamp, (T, bool)>, b: Map<HybridTimestamp, (T, bool)>)
    requires
        forall|t: HybridTimestamp| a.contains_key(t) && b.contains_key(t) ==> #[trigger] a[t].0 == b[t].0,
    ensures
        rga_merge(a, b) == rga_merge(b, a),
{
    assert(rga_merge(a, b) =~= rga_merge(b, a));
}

} // verus!
