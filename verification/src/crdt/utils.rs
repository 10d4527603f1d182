//! Checks of the merge laws on concrete CRDT states.
use crate::crdt::CRDT;
use vstd::prelude::*;

verus! {

/// Merging `a` with itself gives `a`.
pub open spec fn idempotent_at<T: CRDT>(a: T::V) -> bool {
    T::merge_views(a, a) == a
}

/// Merging `a` and `b` gives the same state in either order.
pub open spec fn commutative_at<T: CRDT>(a: T::V, b: T::V) -> bool {
    T::merge_views(a, b) == T::merge_views(b, a)
}

/// Merging `a`, `b` and `c` gives the same state however it is grouped.
pub open spec fn associative_at<T: CRDT>(a: T::V, b: T::V, c: T::V) -> bool {
    T::merge_views(T::merge_views(a, b), c) == T::merge_views(a, T::merge_views(b, c))
}

/// The merge laws hold on a list of states: idempotency for each,
/// commutativity for each pair, associativity for each triple of distinct
/// positions.
pub open spec fn laws_hold<T: CRDT>(s: Seq<T>) -> bool {
    &&& forall|i: int| 0 <= i < s.len() ==> idempotent_at::<T>(#[trigger] s[i]@)
    &&& forall|i: int, j: int|
        0 <= i < j < s.len() ==> commutative_at::<T>(#[trigger] s[i]@, #[trigger] s[j]@)
    &&& forall|i: int, j: int, k: int|
        0 <= i < s.len() && 0 <= j < s.len() && 0 <= k < s.len() && i != j && j != k && i != k
            ==> associative_at::<T>(#[trigger] s[i]@, #[trigger] s[j]@, #[trigger] s[k]@)
}

/// Whether two CRDTs hold the same state.
pub fn crdts_equal<T: CRDT>(a: &T, b: &T) -> (r: bool)
    ensures
        r == (a@ == b@),
{
    a.same_state(b)
}

/// Whether merging a CRDT with itself leaves its state unchanged.
pub fn test_idempotency<T: CRDT>(crdt: &T) -> (r: bool)
    ensures
        r == idempotent_at::<T>(crdt@),
{
    let mut merged = crdt.duplicate();
    merged.merge(crdt);
    crdts_equal(crdt, &merged)
}

/// Whether merging two CRDTs gives the same state in either order.
pub fn test_commutativity<T: CRDT>(a: &T, b: &T) -> (r: bool)
    ensures
        r == commutative_at::<T>(a@, b@),
{
    let mut ab = a.duplicate();
    ab.merge(b);
    let mut ba = b.duplicate();
    ba.merge(a);
    crdts_equal(&ab, &ba)
}

/// Whether merging three CRDTs gives the same state however it is grouped.
pub fn test_associativity<T: CRDT>(a: &T, b: &T, c: &T) -> (r: bool)
    ensures
        r == associative_at::<T>(a@, b@, c@),
{
    let mut ab_c = a.duplicate();
    ab_c.merge(b);
    ab_c.merge(c);
    let mut bc = b.duplicate();
    bc.merge(c);
    let mut a_bc = a.duplicate();
    a_bc.merge(&bc);
    crdts_equal(&ab_c, &a_bc)
}

/// Whether the merge laws hold on a list of CRDTs; fewer than three are
/// accepted as they are.
pub fn verify_crdt_laws<T: CRDT>(crdts: &[T]) -> (r: bool)
    ensures
        r == (crdts@.len() < 3 || laws_hold::<T>(crdts@)),
{
    let n = crdts.len();
    if n < 3 {
        return true;
    }
    let ghost s = crdts@;
    let mut i: usize = 0;
    while i < n
        invariant
            n == s.len(),
            n >= 3,
            s == crdts@,
            i <= n,
            forall|x: int| 0 <= x < i ==> idempotent_at::<T>(#[trigger] s[x]@),
        decreases n - i,
    {
        if !test_idempotency(&crdts[i]) {
            assert(!idempotent_at::<T>(s[i as int]@));
            return false;
        }
        i = i + 1;
    }
    let mut i: usize = 0;
    while i < n
        invariant
            n == s.len(),
            n >= 3,
            s == crdts@,
            i <= n,
            forall|x: int, y: int|
                0 <= x < i && x < y < n ==> commutative_at::<T>(#[trigger] s[x]@, #[trigger] s[y]@),
        decreases n - i,
    {
        let mut j: usize = i + 1;
        while j < n
            invariant
                n == s.len(),
                n >= 3,
                s == crdts@,
                i < n,
                i + 1 <= j <= n,
                forall|x: int, y: int|
                    0 <= x < i && x < y < n ==> commutative_at::<T>(#[trigger] s[x]@, #[trigger] s[y]@),
                forall|y: int| i < y < j ==> commutative_at::<T>(s[i as int]@, #[trigger] s[y]@),
            decreases n - j,
        {
            if !test_commutativity(&crdts[i], &crdts[j]) {
                assert(!commutative_at::<T>(s[i as int]@, s[j as int]@));
                return false;
            }
            j = j + 1;
        }
        i = i + 1;
    }
    let mut i: usize = 0;
    while i < n
        invariant
            n == s.len(),
            n >= 3,
            s == crdts@,
            i <= n,
            forall|x: int, y: int, z: int|
                0 <= x < i && 0 <= y < n && 0 <= z < n && x != y && y != z && x != z
                    ==> associative_at::<T>(#[trigger] s[x]@, #[trigger] s[y]@, #[trigger] s[z]@),
        decreases n - i,
    {
        let mut j: usize = 0;
        while j < n
            invariant
                n == s.len(),
                n >= 3,
                s == crdts@,
                i < n,
                j <= n,
                forall|x: int, y: int, z: int|
                    0 <= x < i && 0 <= y < n && 0 <= z < n && x != y && y != z && x != z
                        ==> associative_at::<T>(#[trigger] s[x]@, #[trigger] s[y]@, #[trigger] s[z]@),
                forall|y: int, z: int|
                    0 <= y < j && 0 <= z < n && i != y && y != z && i != z ==> associative_at::<T>(
                        s[i as int]@,
                        #[trigger] s[y]@,
                        #[trigger] s[z]@,
                    ),
            decreases n - j,
        {
            let mut k: usize = 0;
            while k < n
                invariant
                    n == s.len(),
                    n >= 3,
                    s == crdts@,
                    i < n,
                    j < n,
                    k <= n,
                    forall|x: int, y: int, z: int|
                        0 <= x < i && 0 <= y < n && 0 <= z < n && x != y && y != z && x != z
                            ==> associative_at::<T>(#[trigger] s[x]@, #[trigger] s[y]@, #[trigger] s[z]@),
                    forall|y: int, z: int|
                        0 <= y < j && 0 <= z < n && i != y && y != z && i != z ==> associative_at::<T>(
                            s[i as int]@,
                            #[trigger] s[y]@,
                            #[trigger] s[z]@,
                        ),
                    forall|z: int|
                        0 <= z < k && i != j && j != z && i != z ==> associative_at::<T>(
                            s[i as int]@,
                            s[j as int]@,
                            #[trigger] s[z]@,
                        ),
                decreases n - k,
            {
                if i != j && j != k && i != k {
                    if !test_associativity(&crdts[i], &crdts[j], &crdts[k]) {
                        return false;
                    }
                }
                k = k + 1;
            }
            j = j + 1;
        }
        i = i + 1;
    }
    true
}

} // verus!
