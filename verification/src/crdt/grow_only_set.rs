//! Grow-only set (G-Set): elements can be added and never removed.
use crate::crdt::{StateCRDT, CRDT};
use std::collections::BTreeSet;
use vstd::laws_cmp::obeys_cmp;
use vstd::prelude::*;
use vstd::std_specs::btree::increasing_seq;
use vstd::std_specs::cmp::OrdSpec;
use vstd::std_specs::iter::IteratorSpec;

verus! {

/// A set that supports only additions; replicas converge to the union of
/// everything any of them added. Elements are kept in increasing order.
pub struct GrowOnlySet<T: Copy + Ord + std::hash::Hash> {
    elements: BTreeSet<T>,
}

impl<T: Copy + Ord + std::hash::Hash> View for GrowOnlySet<T> {
    type V = Set<T>;

    closed spec fn view(&self) -> Set<T> {
        self.elements@
    }
}

impl<T: Copy + Ord + std::hash::Hash> GrowOnlySet<T> {
    /// The element type orders its values lawfully, and the set is finite.
    #[verifier::type_invariant]
    closed spec fn well_formed(self) -> bool {
        &&& obeys_cmp::<T>()
        &&& self.elements@.finite()
    }

    /// A new, empty set. The element type's order must be a lawful total order.
    pub fn new() -> (r: GrowOnlySet<T>)
        requires
            obeys_cmp::<T>(),
        ensures
            r@ == Set::<T>::empty(),
    {
        GrowOnlySet { elements: BTreeSet::new() }
    }

    /// Add an element; returns whether it was not already present.
    pub fn add(&mut self, element: T) -> (r: bool)
        ensures
            r == !old(self)@.contains(element),
            final(self)@ == old(self)@.insert(element),
            old(self)@.finite(),
            final(self)@.finite(),
            final(self)@.len() == old(self)@.len() + (if r { 1int } else { 0int }),
    {
        proof {
            use_type_invariant(&*self);
        }
        let mut elements = BTreeSet::new();
        std::mem::swap(&mut elements, &mut self.elements);
        let r = elements.insert(element);
        self.elements = elements;
        r
    }

    /// Whether an element is in the set.
    pub fn contains(&self, element: &T) -> (r: bool)
        ensures
            r == self@.contains(*element),
    {
        proof {
            use_type_invariant(self);
        }
        self.elements.contains(element)
    }

    /// Number of elements.
    pub fn len(&self) -> (r: usize)
        ensures
            r == self@.len(),
    {
        proof {
            use_type_invariant(self);
            broadcast use vstd::std_specs::btree::axiom_key_obeys_cmp_spec_meaning;
            broadcast use vstd::std_specs::btree::axiom_spec_btree_set_len;
        }
        self.elements.len()
    }

    /// Whether the set has no element.
    pub fn is_empty(&self) -> (r: bool)
        ensures
            r == (self@.len() == 0),
    {
        proof {
            use_type_invariant(self);
        }
        self.elements.is_empty()
    }

    /// An iterator over the elements, in increasing order.
    pub fn iter(&self) -> (r: std::collections::btree_set::Iter<'_, T>)
        ensures
            IteratorSpec::remaining(&r).unref().to_set() == self@,
            IteratorSpec::remaining(&r).no_duplicates(),
            increasing_seq(IteratorSpec::remaining(&r)),
    {
        proof {
            use_type_invariant(self);
            broadcast use vstd::std_specs::btree::axiom_key_obeys_cmp_spec_meaning;
            broadcast use vstd::std_specs::btree::axiom_spec_btree_keys_iter;
        }
        self.elements.iter()
    }

    /// The elements in increasing order.
    pub fn elements(&self) -> (r: Vec<T>)
        ensures
            r@.to_set() == self@,
            r@.no_duplicates(),
            forall|a: int, b: int| 0 <= a < b < r@.len() ==> #[trigger] r@[a].cmp_spec(&r@[b]) is Less,
    {
        proof {
            use_type_invariant(self);
        }
        let ghost s = self@;
        let iter = self.elements.iter();
        proof {
            broadcast use vstd::std_specs::btree::axiom_key_obeys_cmp_spec_meaning;
            broadcast use vstd::std_specs::btree::axiom_spec_btree_keys_iter;
        }
        let mut out: Vec<T> = Vec::new();
        let ghost mut done: Set<T> = Set::empty();
        for x in it: iter
            invariant
                s == self@,
                it.seq().unref().to_set() == s,
                it.seq().no_duplicates(),
                increasing_seq(it.seq()),
                out@ == it.seq().unref().take(it.index()),
                done == Set::new(|e: T| seen(it.seq(), it.index(), e)),
                out@.to_set() == done,
                out@.no_duplicates(),
                forall|a: int, b: int| 0 <= a < b < out@.len() ==> #[trigger] out@[a].cmp_spec(&out@[b]) is Less,
                obeys_cmp::<T>(),
        {
            proof {
                broadcast use vstd::std_specs::btree::axiom_increasing_seq_meaning;
                let i = it.index();
                if done.contains(*x) {
                    let j = choose|j: int| 0 <= j < i && *it.seq()[j] == *x;
                    assert(it.seq()[j] == it.seq()[i]);
                }
                broadcast use vstd::laws_cmp::lemma_ref_obeys_cmp_spec;
                assert(obeys_cmp::<&T>());
                vstd::std_specs::btree::axiom_increasing_seq_meaning::<&T>(it.seq());
                assert(increasing_seq(it.seq()));
                assert(i < it.seq().len());
                assert(forall|p: int, q: int| 0 <= p < q < it.seq().len() ==> ordered_before::<&T>(it.seq()[p], it.seq()[q]));
                assert forall|a: int| 0 <= a < i implies #[trigger] out@[a].cmp_spec(x) is Less by {
                    assert(out@[a] == it.seq().unref()[a]);
                    assert(ordered_before::<&T>(it.seq()[a], it.seq()[i]));
                }
            }
            out.push(*x);
            proof {
                assert(out@ =~= it.seq().unref().take(it.index() + 1));
                done = done.insert(*x);
                assert(done =~= Set::new(|e: T| seen(it.seq(), it.index() + 1, e)));
                broadcast use vstd::seq_lib::group_seq_properties;
                assert(out@.to_set() =~= done);
            }
        }
        proof {
            assert forall|e: T| s.contains(e) implies done.contains(e) by {
                broadcast use vstd::std_specs::btree::axiom_spec_btree_keys_iter;
            }
            assert(done =~= s);
            broadcast use vstd::std_specs::btree::axiom_increasing_seq_meaning;
        }
        out
    }

    /// Whether every element of `self` is in `other`.
    pub fn is_subset(&self, other: &GrowOnlySet<T>) -> (r: bool)
        ensures
            r == self@.subset_of(other@),
    {
        proof {
            use_type_invariant(self);
            use_type_invariant(other);
        }
        let ghost s = self@;
        let ghost mut done: Set<T> = Set::empty();
        let iter = self.elements.iter();
        proof {
            broadcast use vstd::std_specs::btree::axiom_key_obeys_cmp_spec_meaning;
            broadcast use vstd::std_specs::btree::axiom_spec_btree_keys_iter;
        }
        for x in it: iter
            invariant
                s == self@,
                it.seq().unref().to_set() == s,
                done == Set::new(|e: T| seen(it.seq(), it.index(), e)),
                done.subset_of(other@),
                obeys_cmp::<T>(),
        {
            if !other.contains(x) {
                proof {
                    assert(it.seq().unref().to_set().contains(*x));
                }
                return false;
            }
            proof {
                done = done.insert(*x);
                assert(done =~= Set::new(|e: T| seen(it.seq(), it.index() + 1, e)));
            }
        }
        proof {
            assert forall|e: T| s.contains(e) implies other@.contains(e) by {
                broadcast use vstd::std_specs::btree::axiom_spec_btree_keys_iter;
                assert(done.contains(e));
            }
        }
        true
    }

    /// Whether every element of `other` is in `self`.
    pub fn is_superset(&self, other: &GrowOnlySet<T>) -> (r: bool)
        ensures
            r == other@.subset_of(self@),
    {
        other.is_subset(self)
    }

    /// Insert every element of `other`.
    fn absorb(&mut self, other: &GrowOnlySet<T>)
        ensures
            final(self)@ == old(self)@.union(other@),
    {
        proof {
            use_type_invariant(&*self);
            use_type_invariant(other);
        }
        let ghost start = self@;
        let ghost s = other@;
        let ghost mut done: Set<T> = Set::empty();
        let iter = other.elements.iter();
        proof {
            broadcast use vstd::std_specs::btree::axiom_key_obeys_cmp_spec_meaning;
            broadcast use vstd::std_specs::btree::axiom_spec_btree_keys_iter;
        }
        for x in it: iter
            invariant
                s == other@,
                it.seq().unref().to_set() == s,
                done == Set::new(|e: T| seen(it.seq(), it.index(), e)),
                done.subset_of(s),
                self@ == start.union(done),
        {
            proof {
                assert(it.seq().unref()[it.index()] == *x);
                assert(it.seq().unref().to_set().contains(*x));
            }
            self.add(*x);
            proof {
                done = done.insert(*x);
                assert(done =~= Set::new(|e: T| seen(it.seq(), it.index() + 1, e)));
                assert(self@ =~= start.union(done));
            }
        }
        proof {
            assert forall|e: T| s.contains(e) implies done.contains(e) by {
                broadcast use vstd::std_specs::btree::axiom_spec_btree_keys_iter;
            }
            assert(done =~= s);
        }
    }

    /// The union with another set, leaving both unchanged.
    pub fn union(&self, other: &GrowOnlySet<T>) -> (r: GrowOnlySet<T>)
        ensures
            r@ == self@.union(other@),
    {
        proof {
            use_type_invariant(self);
        }
        let mut out = GrowOnlySet { elements: self.elements.clone() };
        out.absorb(other);
        out
    }

    /// The elements in both sets.
    pub fn intersection(&self, other: &GrowOnlySet<T>) -> (r: GrowOnlySet<T>)
        ensures
            r@ == self@.intersect(other@),
    {
        self.filter_by(other, true)
    }

    /// The elements of `self` that are not in `other`.
    pub fn difference(&self, other: &GrowOnlySet<T>) -> (r: GrowOnlySet<T>)
        ensures
            r@ == self@.difference(other@),
    {
        self.filter_by(other, false)
    }

    /// The elements of `self` whose membership in `other` is `keep_common`.
    fn filter_by(&self, other: &GrowOnlySet<T>, keep_common: bool) -> (r: GrowOnlySet<T>)
        ensures
            r@ == Set::new(|e: T| self@.contains(e) && other@.contains(e) == keep_common),
    {
        proof {
            use_type_invariant(self);
            use_type_invariant(other);
        }
        let ghost s = self@;
        let ghost mut done: Set<T> = Set::empty();
        let mut out: GrowOnlySet<T> = GrowOnlySet::new();
        let iter = self.elements.iter();
        proof {
            broadcast use vstd::std_specs::btree::axiom_key_obeys_cmp_spec_meaning;
            broadcast use vstd::std_specs::btree::axiom_spec_btree_keys_iter;
        }
        for x in it: iter
            invariant
                s == self@,
                it.seq().unref().to_set() == s,
                done == Set::new(|e: T| seen(it.seq(), it.index(), e)),
                done.subset_of(s),
                out@ == Set::new(|e: T| done.contains(e) && other@.contains(e) == keep_common),
        {
            proof {
                assert(it.seq().unref()[it.index()] == *x);
                assert(it.seq().unref().to_set().contains(*x));
            }
            if other.contains(x) == keep_common {
                out.add(*x);
            }
            proof {
                done = done.insert(*x);
                assert(done =~= Set::new(|e: T| seen(it.seq(), it.index() + 1, e)));
                assert(out@ =~= Set::new(|e: T| done.contains(e) && other@.contains(e) == keep_common));
            }
        }
        proof {
            assert forall|e: T| s.contains(e) implies done.contains(e) by {
                broadcast use vstd::std_specs::btree::axiom_spec_btree_keys_iter;
            }
            assert(done =~= s);
            assert(out@ =~= Set::new(|e: T| self@.contains(e) && other@.contains(e) == keep_common));
        }
        out
    }
}

/// `a` orders strictly before `b`.
pub open spec fn ordered_before<K: Ord>(a: K, b: K) -> bool {
    a.cmp_spec(&b) is Less
}

/// Some of the first `n` items of `s` is `e`.
pub open spec fn seen<T>(s: Seq<&T>, n: int, e: T) -> bool {
    exists|j: int| 0 <= j < n && *s[j] == e
}

impl<T: Copy + Ord + std::hash::Hash> CRDT for GrowOnlySet<T> {
    open spec fn merge_views(a: Set<T>, b: Set<T>) -> Set<T> {
        a.union(b)
    }

    fn merge(&mut self, other: &Self) {
        self.absorb(other);
    }

    /// Every element of `self` is in `other`.
    fn is_subset_of(&self, other: &Self) -> (r: bool)
        ensures
            r == self@.subset_of(other@),
    {
        self.is_subset(other)
    }

    fn same_state(&self, other: &Self) -> (r: bool) {
        proof {
            use_type_invariant(self);
            use_type_invariant(other);
        }
        if self.len() != other.len() {
            return false;
        }
        let r = self.is_subset(other);
        proof {
            if r {
                vstd::set_lib::lemma_subset_equality(self@, other@);
            }
        }
        r
    }

    fn duplicate(&self) -> (r: Self) {
        proof {
            use_type_invariant(self);
        }
        GrowOnlySet { elements: self.elements.clone() }
    }
}

impl<T: Copy + Ord + std::hash::Hash> StateCRDT for GrowOnlySet<T> {
}

/// Merging a G-Set with itself leaves it unchanged.
pub proof fn gset_merge_idempotent<T: Copy + Ord + std::hash::Hash>(a: GrowOnlySet<T>)
    ensures
        GrowOnlySet::<T>::merge_views(a@, a@) == a@,
{
    assert(a@.union(a@) =~= a@);
}

/// Merging G-Sets gives the same state in either order.
pub proof fn gset_merge_commutative<T: Copy + Ord + std::hash::Hash>(a: GrowOnlySet<T>, b: GrowOnlySet<T>)
    ensures
        GrowOnlySet::<T>::merge_views(a@, b@) == GrowOnlySet::<T>::merge_views(b@, a@),
{
    assert(a@.union(b@) =~= b@.union(a@));
}

/// Merging G-Sets is associative.
pub proof fn gset_merge_associative<T: Copy + Ord + std::hash::Hash>(
    a: GrowOnlySet<T>,
    b: GrowOnlySet<T>,
    c: GrowOnlySet<T>,
)
    ensures
        GrowOnlySet::<T>::merge_views(GrowOnlySet::<T>::merge_views(a@, b@), c@)
            == GrowOnlySet::<T>::merge_views(a@, GrowOnlySet::<T>::merge_views(b@, c@)),
{
    assert(a@.union(b@).union(c@) =~= a@.union(b@.union(c@)));
}

/// Nothing is ever removed from a G-Set: both replicas are contained in their merge.
pub proof fn gset_merge_keeps_elements<T: Copy + Ord + std::hash::Hash>(a: GrowOnlySet<T>, b: GrowOnlySet<T>)
    ensures
        a@.subset_of(GrowOnlySet::<T>::merge_views(a@, b@)),
        b@.subset_of(GrowOnlySet::<T>::merge_views(a@, b@)),
{
}

} // verus!
