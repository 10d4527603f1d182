//! Two-phase set (2P-Set): a set of added elements and a set of removed ones.
use crate::crdt::grow_only_set::GrowOnlySet;
use crate::crdt::{StateCRDT, CRDT};
use vstd::laws_cmp::obeys_cmp;
use vstd::prelude::*;

verus! {

/// A set with additions and removals, kept as two grow-only sets. An element
/// is present when it was added and never removed; once removed it can never
/// be added again.
pub struct TwoPhaseSet<T: Copy + Ord + std::hash::Hash> {
    added: GrowOnlySet<T>,
    removed: GrowOnlySet<T>,
}

impl<T: Copy + Ord + std::hash::Hash> View for TwoPhaseSet<T> {
    /// (added, removed)
    type V = (Set<T>, Set<T>);

    closed spec fn view(&self) -> (Set<T>, Set<T>) {
        (self.added@, self.removed@)
    }
}

/// Whether `e` is an element of the two-phase set with state `s`.
pub open spec fn tp_contains<T>(s: (Set<T>, Set<T>), e: T) -> bool {
    s.0.contains(e) && !s.1.contains(e)
}

/// The state after one operation: `(true, e)` adds `e` unless it was
/// removed, `(false, e)` removes `e` where it was added.
pub open spec fn tp_step<T>(s: (Set<T>, Set<T>), op: (bool, T)) -> (Set<T>, Set<T>) {
    if op.0 {
        if s.1.contains(op.1) {
            s
        } else {
            (s.0.insert(op.1), s.1)
        }
    } else {
        if s.0.contains(op.1) {
            (s.0, s.1.insert(op.1))
        } else {
            s
        }
    }
}

/// The state a new set reaches through a sequence of operations.
pub open spec fn tp_run<T>(ops: Seq<(bool, T)>) -> (Set<T>, Set<T>)
    decreases ops.len(),
{
    if ops.len() == 0 {
        (Set::empty(), Set::empty())
    } else {
        tp_step(tp_run(ops.drop_last()), ops.last())
    }
}

/// Whether the operations add `e` at some point.
pub open spec fn has_add<T>(ops: Seq<(bool, T)>, e: T) -> bool {
    exists|i: int| 0 <= i < ops.len() && ops[i] == (true, e)
}

/// Whether the operations remove `e` after adding it.
pub open spec fn removed_after_add<T>(ops: Seq<(bool, T)>, e: T) -> bool {
    exists|i: int, j: int| 0 <= i < j < ops.len() && ops[i] == (true, e) && ops[j] == (false, e)
}

impl<T: Copy + Ord + std::hash::Hash> TwoPhaseSet<T> {
    /// A new, empty set. The element type's order must be a lawful total order.
    pub fn new() -> (r: TwoPhaseSet<T>)
        requires
            obeys_cmp::<T>(),
        ensures
            r@ == (Set::<T>::empty(), Set::<T>::empty()),
            r@ == tp_run(Seq::<(bool, T)>::empty()),
    {
        TwoPhaseSet { added: GrowOnlySet::new(), removed: GrowOnlySet::new() }
    }

    /// Add an element unless it was removed before; returns whether it was
    /// newly added.
    pub fn add(&mut self, element: T) -> (r: bool)
        ensures
            r == (!old(self)@.1.contains(element) && !old(self)@.0.contains(element)),
            final(self)@.1 == old(self)@.1,
            final(self)@.0 == (if old(self)@.1.contains(element) {
                old(self)@.0
            } else {
                old(self)@.0.insert(element)
            }),
            final(self)@ == tp_step(old(self)@, (true, element)),
    {
        !self.removed.contains(&element) && self.added.add(element)
    }

    /// Remove an element that was added; returns whether it was newly removed.
    pub fn remove(&mut self, element: T) -> (r: bool)
        ensures
            r == (old(self)@.0.contains(element) && !old(self)@.1.contains(element)),
            final(self)@.0 == old(self)@.0,
            final(self)@.1 == (if old(self)@.0.contains(element) {
                old(self)@.1.insert(element)
            } else {
                old(self)@.1
            }),
            final(self)@ == tp_step(old(self)@, (false, element)),
    {
        self.added.contains(&element) && self.removed.add(element)
    }

    /// Whether the element was added and not removed.
    pub fn contains(&self, element: &T) -> (r: bool)
        ensures
            r == tp_contains(self@, *element),
    {
        self.added.contains(element) && !self.removed.contains(element)
    }
}

impl<T: Copy + Ord + std::hash::Hash> CRDT for TwoPhaseSet<T> {
    open spec fn merge_views(a: (Set<T>, Set<T>), b: (Set<T>, Set<T>)) -> (Set<T>, Set<T>) {
        (a.0.union(b.0), a.1.union(b.1))
    }

    fn merge(&mut self, other: &Self) {
        self.added.merge(&other.added);
        self.removed.merge(&other.removed);
    }

    fn same_state(&self, other: &Self) -> (r: bool) {
        self.added.same_state(&other.added) && self.removed.same_state(&other.removed)
    }

    fn duplicate(&self) -> (r: Self) {
        TwoPhaseSet { added: self.added.duplicate(), removed: self.removed.duplicate() }
    }
}

impl<T: Copy + Ord + std::hash::Hash> StateCRDT for TwoPhaseSet<T> {
}

/// From a new set, after any sequence of adds and removes (no merge), an
/// element has been added exactly when some operation added it, has been
/// removed exactly when a remove of it came after an add of it, and so is
/// present exactly when it was added and never removed after being added:
/// a remove before any add is ignored, and once removed it stays absent.
pub proof fn two_phase_run_contents<T>(ops: Seq<(bool, T)>, e: T)
    ensures
        tp_run(ops).0.contains(e) <==> has_add(ops, e),
        tp_run(ops).1.contains(e) <==> removed_after_add(ops, e),
        tp_contains(tp_run(ops), e) <==> (has_add(ops, e) && !removed_after_add(ops, e)),
    decreases ops.len(),
{
    if ops.len() > 0 {
        let p = ops.drop_last();
        let n = ops.len() - 1;
        let last = ops.last();
        two_phase_run_contents(p, e);
        assert forall|i: int| 0 <= i < n implies ops[i] == p[i] by {}
        if has_add(p, e) {
            let i = choose|i: int| 0 <= i < p.len() && p[i] == (true, e);
            assert(ops[i] == (true, e));
        }
        if removed_after_add(p, e) {
            let (i, j) = choose|i: int, j: int| 0 <= i < j < p.len() && p[i] == (true, e) && p[j] == (false, e);
            assert(ops[i] == (true, e) && ops[j] == (false, e));
        }
        if has_add(ops, e) && last != (true, e) {
            let i = choose|i: int| 0 <= i < ops.len() && ops[i] == (true, e);
            assert(i < n);
            assert(p[i] == (true, e));
        }
        if removed_after_add(ops, e) {
            let (i, j) = choose|i: int, j: int| 0 <= i < j < ops.len() && ops[i] == (true, e) && ops[j] == (false, e);
            assert(p[i] == (true, e));
            if j < n {
                assert(p[j] == (false, e));
            } else {
                assert(last == (false, e));
            }
        }
        if last == (false, e) && has_add(p, e) {
            let i = choose|i: int| 0 <= i < p.len() && p[i] == (true, e);
            assert(ops[i] == (true, e) && ops[n] == (false, e));
        }
        if last == (true, e) {
            assert(ops[n] == (true, e));
        }
    }
}

/// Merging a 2P-Set with itself leaves it unchanged.
pub proof fn two_phase_merge_idempotent<T: Copy + Ord + std::hash::Hash>(a: TwoPhaseSet<T>)
    ensures
        TwoPhaseSet::<T>::merge_views(a@, a@) == a@,
{
    assert(a@.0.union(a@.0) =~= a@.0);
    assert(a@.1.union(a@.1) =~= a@.1);
}

/// Merging 2P-Sets gives the same state in either order.
pub proof fn two_phase_merge_commutative<T: Copy + Ord + std::hash::Hash>(
    a: TwoPhaseSet<T>,
    b: TwoPhaseSet<T>,
)
    ensures
        TwoPhaseSet::<T>::merge_views(a@, b@) == TwoPhaseSet::<T>::merge_views(b@, a@),
{
    assert(a@.0.union(b@.0) =~= b@.0.union(a@.0));
    assert(a@.1.union(b@.1) =~= b@.1.union(a@.1));
}

/// Merging 2P-Sets is associative.
pub proof fn two_phase_merge_associative<T: Copy + Ord + std::hash::Hash>(
    a: TwoPhaseSet<T>,
    b: TwoPhaseSet<T>,
    c: TwoPhaseSet<T>,
)
    ensures
        TwoPhaseSet::<T>::merge_views(TwoPhaseSet::<T>::merge_views(a@, b@), c@)
            == TwoPhaseSet::<T>::merge_views(a@, TwoPhaseSet::<T>::merge_views(b@, c@)),
{
    assert(a@.0.union(b@.0).union(c@.0) =~= a@.0.union(b@.0.union(c@.0)));
    assert(a@.1.union(b@.1).union(c@.1) =~= a@.1.union(b@.1.union(c@.1)));
}

/// A removed element stays removed: after any merge with any other replica it
/// is not contained.
pub proof fn two_phase_removed_stays_removed<T: Copy + Ord + std::hash::Hash>(
    a: TwoPhaseSet<T>,
    b: TwoPhaseSet<T>,
    e: T,
)
    requires
        a@.1.contains(e),
    ensures
        !tp_contains(TwoPhaseSet::<T>::merge_views(a@, b@), e),
        !tp_contains(TwoPhaseSet::<T>::merge_views(b@, a@), e),
{
}

} // verus!
