//! Observed-remove set (OR-Set): each addition of an element is tagged with
//! a per-replica counter; an element is present while some addition tag is
//! not covered by a removal tag of the same replica.
use crate::crdt::clock_map::{get0, join, ClockMap};
use crate::crdt::{ReplicaId, StateCRDT, CRDT};
use std::collections::BTreeMap;
use vstd::laws_cmp::obeys_cmp;
use vstd::prelude::*;

verus! {

/// The tags of an element in a tag table, or none.
pub open spec fn tags_of<T>(t: Map<T, Map<u128, u64>>, e: T) -> Map<u128, u64> {
    if t.contains_key(e) {
        t[e]
    } else {
        Map::empty()
    }
}

/// Tag tables joined element by element, over the elements of both.
pub open spec fn join_tags<T>(a: Map<T, Map<u128, u64>>, b: Map<T, Map<u128, u64>>) -> Map<
    T,
    Map<u128, u64>,
> {
    Map::new(|e: T| a.contains_key(e) || b.contains_key(e), |e: T| join(tags_of(a, e), tags_of(b, e)))
}

/// Whether an element is in an OR-Set with state (added, removed, next tags):
/// it was added, and some replica's addition tag is not covered by a removal
/// tag of that replica; with no removal recorded, any addition counts.
pub open spec fn or_contains<T>(
    s: (Map<T, Map<u128, u64>>, Map<T, Map<u128, u64>>, Map<u128, u64>),
    e: T,
) -> bool {
    s.0.contains_key(e) && if s.1.contains_key(e) {
        exists|r: u128|
            #[trigger] s.0[e].contains_key(r) && (!s.1[e].contains_key(r) || s.0[e][r] > s.1[e][r])
    } else {
        s.0[e].dom().len() > 0
    }
}

/// Whether element `e` was seen among the first `n` entries of an iteration.
pub open spec fn seen_key<T>(s: Seq<(&T, &ClockMap)>, n: int, e: T) -> bool {
    exists|j: int| 0 <= j < n && *s[j].0 == e
}

/// A set with additions and removals where an addition observed after a
/// removal wins.
pub struct ORSet<T: Copy + Ord> {
    added: BTreeMap<T, ClockMap>,
    removed: BTreeMap<T, ClockMap>,
    next_tag: ClockMap,
}

/// The view of a tag table.
pub open spec fn table_view<T>(m: Map<T, ClockMap>) -> Map<T, Map<u128, u64>> {
    m.map_values(|c: ClockMap| c@)
}

impl<T: Copy + Ord> View for ORSet<T> {
    /// (added tags, removed tags, next tag of each replica)
    type V = (Map<T, Map<u128, u64>>, Map<T, Map<u128, u64>>, Map<u128, u64>);

    closed spec fn view(&self) -> (Map<T, Map<u128, u64>>, Map<T, Map<u128, u64>>, Map<u128, u64>) {
        (table_view(self.added@), table_view(self.removed@), self.next_tag@)
    }
}

/// The tags of an element in a table.
fn table_get<T: Copy + Ord>(m: &BTreeMap<T, ClockMap>, e: &T) -> (r: ClockMap)
    requires
        obeys_cmp::<T>(),
    ensures
        r@ == tags_of(table_view(m@), *e),
{
    match m.get(e) {
        Some(c) => c.copy(),
        None => ClockMap::new(),
    }
}

/// Join a table into another, element by element.
fn table_join<T: Copy + Ord>(m: &mut BTreeMap<T, ClockMap>, other: &BTreeMap<T, ClockMap>)
    requires
        obeys_cmp::<T>(),
    ensures
        table_view(final(m)@) == join_tags(table_view(old(m)@), table_view(other@)),
{
    let ghost start = table_view(m@);
    let ghost ov = table_view(other@);
    let ghost mut done: Set<T> = Set::empty();
    for kv in it: other.iter()
        invariant
            obeys_cmp::<T>(),
            ov == table_view(other@),
            done == Set::new(|e: T| seen_key(it.seq(), it.index(), e)),
            forall|j: int|
                0 <= j < it.seq().len() ==> other@.contains_key(*it.seq()[j].0) && other@[*it.seq()[j].0]
                    == *it.seq()[j].1,
            forall|e: T| #[trigger]
                table_view(m@).contains_key(e) <==> (start.contains_key(e) || done.contains(e)),
            forall|e: T| #[trigger]
                table_view(m@).contains_key(e) ==> table_view(m@)[e] == (if done.contains(e) {
                    join(tags_of(start, e), ov[e])
                } else {
                    start[e]
                }),
    {
        let e = *kv.0;
        let tags = kv.1;
        proof {
            let i = it.index();
            assert(*it.seq()[i].0 == e);
            assert(other@[e] == *tags);
            assert(ov[e] == tags@);
        }
        let mut cur = table_get(m, &e);
        cur.merge(tags);
        let ghost before = m@;
        let ghost cv = cur@;
        m.insert(e, cur);
        proof {
            assert(table_view(m@) =~= table_view(before).insert(e, cv));
            done = done.insert(e);
            assert(done =~= Set::new(|q: T| seen_key(it.seq(), it.index() + 1, q)));
        }
    }
    proof {
        assert forall|e: T| ov.contains_key(e) implies done.contains(e) by {
            broadcast use vstd::std_specs::btree::axiom_spec_btree_map_iter;
        }
        assert forall|e: T| #[trigger] table_view(m@).contains_key(e) implies table_view(m@)[e]
            == join_tags(start, ov)[e] by {
            if !done.contains(e) {
                assert(!ov.contains_key(e)) by {
                    if ov.contains_key(e) {
                        assert(done.contains(e));
                    }
                }
                assert(join(tags_of(start, e), tags_of(ov, e)) =~= start[e]);
            }
        }
        assert(table_view(m@) =~= join_tags(start, ov));
    }
}

impl<T: Copy + Ord> ORSet<T> {
    #[verifier::type_invariant]
    closed spec fn lawful_order(&self) -> bool {
        obeys_cmp::<T>()
    }

    /// An empty set. The element type's order must be a lawful total order.
    pub fn new() -> (r: ORSet<T>)
        requires
            obeys_cmp::<T>(),
        ensures
            r@ == (
                Map::<T, Map<u128, u64>>::empty(),
                Map::<T, Map<u128, u64>>::empty(),
                Map::<u128, u64>::empty(),
            ),
    {
        let r = ORSet { added: BTreeMap::new(), removed: BTreeMap::new(), next_tag: ClockMap::new() };
        assert(table_view(r.added@) =~= Map::<T, Map<u128, u64>>::empty());
        assert(table_view(r.removed@) =~= Map::<T, Map<u128, u64>>::empty());
        r
    }

    /// Add an element on behalf of a replica: the replica's next tag is
    /// advanced and recorded for the element.
    pub fn add(&mut self, element: T, replica_id: ReplicaId)
        requires
            get0(old(self)@.2, replica_id.0) < u64::MAX,
        ensures
            final(self)@.2 == old(self)@.2.insert(
                replica_id.0,
                (get0(old(self)@.2, replica_id.0) + 1) as u64,
            ),
            final(self)@.0 == old(self)@.0.insert(
                element,
                tags_of(old(self)@.0, element).insert(
                    replica_id.0,
                    (get0(old(self)@.2, replica_id.0) + 1) as u64,
                ),
            ),
            final(self)@.1 == old(self)@.1,
    {
        proof {
            use_type_invariant(&*self);
        }
        let mut next_tag = ClockMap::new();
        std::mem::swap(&mut next_tag, &mut self.next_tag);
        let tag = next_tag.add(replica_id.0, 1);
        self.next_tag = next_tag;
        let mut added = BTreeMap::new();
        std::mem::swap(&mut added, &mut self.added);
        let mut tags = table_get(&added, &element);
        tags.insert(replica_id.0, tag);
        let ghost tv = tags@;
        added.insert(element, tags);
        self.added = added;
        proof {
            assert(table_view(self.added@) =~= old(self)@.0.insert(element, tv));
        }
    }

    /// Whether an element is in the set.
    pub fn contains(&self, element: &T) -> (r: bool)
        ensures
            r == or_contains(self@, *element),
    {
        proof {
            use_type_invariant(self);
        }
        match self.added.get(element) {
            Some(added_tags) => {
                proof {
                    assert(self@.0.contains_key(*element));
                    assert(self@.0[*element] == added_tags@);
                }
                match self.removed.get(element) {
                    Some(removed_tags) => {
                        proof {
                            assert(self@.1.contains_key(*element));
                            assert(self@.1[*element] == removed_tags@);
                        }
                        let r = added_tags.some_entry_unmatched(removed_tags);
                        r
                    },
                    None => {
                        proof {
                            assert(!self@.1.contains_key(*element));
                        }
                        !added_tags.is_empty()
                    },
                }
            },
            None => {
                proof {
                    assert(!self@.0.contains_key(*element));
                }
                false
            },
        }
    }
}

impl<T: Copy + Ord> CRDT for ORSet<T> {
    open spec fn merge_views(
        a: (Map<T, Map<u128, u64>>, Map<T, Map<u128, u64>>, Map<u128, u64>),
        b: (Map<T, Map<u128, u64>>, Map<T, Map<u128, u64>>, Map<u128, u64>),
    ) -> (Map<T, Map<u128, u64>>, Map<T, Map<u128, u64>>, Map<u128, u64>) {
        (join_tags(a.0, b.0), join_tags(a.1, b.1), join(a.2, b.2))
    }

    fn merge(&mut self, other: &Self) {
        proof {
            use_type_invariant(&*self);
        }
        let mut added = BTreeMap::new();
        std::mem::swap(&mut added, &mut self.added);
        table_join(&mut added, &other.added);
        self.added = added;
        let mut removed = BTreeMap::new();
        std::mem::swap(&mut removed, &mut self.removed);
        table_join(&mut removed, &other.removed);
        self.removed = removed;
        let mut next_tag = ClockMap::new();
        std::mem::swap(&mut next_tag, &mut self.next_tag);
        next_tag.merge(&other.next_tag);
        self.next_tag = next_tag;
    }

    fn same_state(&self, other: &Self) -> (r: bool) {
        proof {
            use_type_invariant(self);
        }
        let a = table_same(&self.added, &other.added);
        let b = table_same(&self.removed, &other.removed);
        let c = self.next_tag.same_entries(&other.next_tag);
        a && b && c
    }

    fn duplicate(&self) -> (r: Self) {
        proof {
            use_type_invariant(self);
        }
        ORSet {
            added: table_copy(&self.added),
            removed: table_copy(&self.removed),
            next_tag: self.next_tag.copy(),
        }
    }
}

impl<T: Copy + Ord> StateCRDT for ORSet<T> {
}

/// A copy of a table.
fn table_copy<T: Copy + Ord>(m: &BTreeMap<T, ClockMap>) -> (r: BTreeMap<T, ClockMap>)
    requires
        obeys_cmp::<T>(),
    ensures
        table_view(r@) == table_view(m@),
{
    let mut out: BTreeMap<T, ClockMap> = BTreeMap::new();
    let ghost mv = table_view(m@);
    let ghost mut done: Set<T> = Set::empty();
    for kv in it: m.iter()
        invariant
            obeys_cmp::<T>(),
            mv == table_view(m@),
            done == Set::new(|e: T| seen_key(it.seq(), it.index(), e)),
            forall|j: int|
                0 <= j < it.seq().len() ==> m@.contains_key(*it.seq()[j].0) && m@[*it.seq()[j].0]
                    == *it.seq()[j].1,
            forall|e: T| #[trigger] table_view(out@).contains_key(e) <==> done.contains(e),
            forall|e: T| #[trigger] table_view(out@).contains_key(e) ==> table_view(out@)[e] == mv[e],
    {
        let e = *kv.0;
        proof {
            let i = it.index();
            assert(*it.seq()[i].0 == e);
        }
        let c = kv.1.copy();
        let ghost before = out@;
        let ghost cv = c@;
        out.insert(e, c);
        proof {
            assert(table_view(out@) =~= table_view(before).insert(e, cv));
            assert(cv == mv[e]);
            done = done.insert(e);
            assert(done =~= Set::new(|q: T| seen_key(it.seq(), it.index() + 1, q)));
        }
    }
    proof {
        assert forall|e: T| mv.contains_key(e) implies done.contains(e) by {
            broadcast use vstd::std_specs::btree::axiom_spec_btree_map_iter;
        }
        assert(table_view(out@) =~= mv);
    }
    out
}

/// Whether two tables hold the same tags.
fn table_same<T: Copy + Ord>(a: &BTreeMap<T, ClockMap>, b: &BTreeMap<T, ClockMap>) -> (r: bool)
    requires
        obeys_cmp::<T>(),
    ensures
        r == (table_view(a@) == table_view(b@)),
{
    proof {
        broadcast use vstd::std_specs::btree::axiom_btree_map_view_finite_dom;
        broadcast use vstd::std_specs::btree::axiom_spec_btree_map_len;
    }
    let ghost av = table_view(a@);
    let ghost bv = table_view(b@);
    if a.len() != b.len() {
        proof {
            assert(av.dom() =~= a@.dom());
            assert(bv.dom() =~= b@.dom());
        }
        return false;
    }
    let ghost mut done: Set<T> = Set::empty();
    for kv in it: a.iter()
        invariant
            obeys_cmp::<T>(),
            done == Set::new(|e: T| seen_key(it.seq(), it.index(), e)),
            av == table_view(a@),
            bv == table_view(b@),
            forall|j: int|
                0 <= j < it.seq().len() ==> a@.contains_key(*it.seq()[j].0) && a@[*it.seq()[j].0]
                    == *it.seq()[j].1,
            forall|e: T| done.contains(e) ==> #[trigger] bv.contains_key(e) && av[e] == bv[e],
    {
        let e = *kv.0;
        proof {
            let i = it.index();
            assert(*it.seq()[i].0 == e);
        }
        match b.get(&e) {
            Some(c) => {
                if !kv.1.same_entries(c) {
                    assert(av[e] != bv[e]);
                    return false;
                }
            },
            None => {
                assert(!bv.contains_key(e));
                assert(av.contains_key(e));
                return false;
            },
        }
        proof {
            done = done.insert(e);
            assert(done =~= Set::new(|q: T| seen_key(it.seq(), it.index() + 1, q)));
        }
    }
    proof {
        assert forall|e: T| av.contains_key(e) implies #[trigger] bv.contains_key(e) && av[e] == bv[e] by {
            broadcast use vstd::std_specs::btree::axiom_spec_btree_map_iter;
            assert(done.contains(e));
        }
        assert(av.dom() =~= a@.dom());
        assert(bv.dom() =~= b@.dom());
        assert(av.dom().subset_of(bv.dom()));
        vstd::set_lib::lemma_subset_equality(av.dom(), bv.dom());
        assert(av =~= bv);
    }
    true
}

/// Merging an OR-Set with itself leaves it unchanged.
pub proof fn orset_merge_idempotent<T: Copy + Ord>(
    a: (Map<T, Map<u128, u64>>, Map<T, Map<u128, u64>>, Map<u128, u64>),
)
    ensures
        ORSet::<T>::merge_views(a, a) == a,
{
    assert(join_tags(a.0, a.0) =~= a.0) by {
        assert forall|e: T| a.0.contains_key(e) implies join(tags_of(a.0, e), tags_of(a.0, e)) == a.0[e] by {
            crate::crdt::clock_map::lemma_join_idempotent(a.0[e]);
        }
    }
    assert(join_tags(a.1, a.1) =~= a.1) by {
        assert forall|e: T| a.1.contains_key(e) implies join(tags_of(a.1, e), tags_of(a.1, e)) == a.1[e] by {
            crate::crdt::clock_map::lemma_join_idempotent(a.1[e]);
        }
    }
    crate::crdt::clock_map::lemma_join_idempotent(a.2);
}

/// Merging OR-Sets gives the same state in either order.
pub proof fn orset_merge_commutative<T: Copy + Ord>(
    a: (Map<T, Map<u128, u64>>, Map<T, Map<u128, u64>>, Map<u128, u64>),
    b: (Map<T, Map<u128, u64>>, Map<T, Map<u128, u64>>, Map<u128, u64>),
)
    ensures
        ORSet::<T>::merge_views(a, b) == ORSet::<T>::merge_views(b, a),
{
    assert(join_tags(a.0, b.0) =~= join_tags(b.0, a.0)) by {
        assert forall|e: T| #[trigger] join_tags(a.0, b.0).contains_key(e) implies join_tags(a.0, b.0)[e] == join_tags(b.0, a.0)[e] by {
            crate::crdt::clock_map::lemma_join_commutative(tags_of(a.0, e), tags_of(b.0, e));
        }
    }
    assert(join_tags(a.1, b.1) =~= join_tags(b.1, a.1)) by {
        assert forall|e: T| #[trigger] join_tags(a.1, b.1).contains_key(e) implies join_tags(a.1, b.1)[e] == join_tags(b.1, a.1)[e] by {
            crate::crdt::clock_map::lemma_join_commutative(tags_of(a.1, e), tags_of(b.1, e));
        }
    }
    crate::crdt::clock_map::lemma_join_commutative(a.2, b.2);
}

/// Joining tag tables is associative.
pub proof fn lemma_join_tags_associative<T>(
    a: Map<T, Map<u128, u64>>,
    b: Map<T, Map<u128, u64>>,
    c: Map<T, Map<u128, u64>>,
)
    ensures
        join_tags(join_tags(a, b), c) == join_tags(a, join_tags(b, c)),
{
    assert forall|e: T| #[trigger] join_tags(join_tags(a, b), c).contains_key(e) implies join_tags(
        join_tags(a, b),
        c,
    )[e] == join_tags(a, join_tags(b, c))[e] by {
        let x = tags_of(a, e);
        let y = tags_of(b, e);
        let z = tags_of(c, e);
        assert(tags_of(join_tags(a, b), e) =~= join(x, y));
        assert(tags_of(join_tags(b, c), e) =~= join(y, z));
        crate::crdt::clock_map::lemma_join_associative(x, y, z);
    }
    assert(join_tags(join_tags(a, b), c) =~= join_tags(a, join_tags(b, c)));
}

/// Merging OR-Sets is associative.
pub proof fn orset_merge_associative<T: Copy + Ord>(
    a: (Map<T, Map<u128, u64>>, Map<T, Map<u128, u64>>, Map<u128, u64>),
    b: (Map<T, Map<u128, u64>>, Map<T, Map<u128, u64>>, Map<u128, u64>),
    c: (Map<T, Map<u128, u64>>, Map<T, Map<u128, u64>>, Map<u128, u64>),
)
    ensures
        ORSet::<T>::merge_views(ORSet::<T>::merge_views(a, b), c) == ORSet::<T>::merge_views(
            a,
            ORSet::<T>::merge_views(b, c),
        ),
{
    lemma_join_tags_associative(a.0, b.0, c.0);
    lemma_join_tags_associative(a.1, b.1, c.1);
    crate::crdt::clock_map::lemma_join_associative(a.2, b.2, c.2);
}

} // verus!
