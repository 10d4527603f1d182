//! Values stamped with vector clocks, and the multi-value register that
//! keeps every value no other value causally follows.
use crate::crdt::clock_map::{get0, join, max_u64};
use crate::crdt::vector_clock::{clock_le, concurrent, happens_before, VectorClock};
use crate::crdt::{ReplicaId, CRDT};
use vstd::laws_eq::obeys_concrete_eq;
use vstd::prelude::*;

verus! {

/// A value with the vector clock of its write and the replica that wrote it.
pub struct VersionedValue<T: Copy> {
    pub value: T,
    pub version: VectorClock,
    pub author: ReplicaId,
}

/// The view of a versioned value: (value, clock, author).
pub open spec fn vv_view<T: Copy>(v: VersionedValue<T>) -> (T, Map<u128, u64>, ReplicaId) {
    (v.value, v.version@, v.author)
}

impl<T: Copy> VersionedValue<T> {
    /// A value written by a replica, at clock 1 for that replica.
    pub fn new(value: T, author: ReplicaId) -> (r: VersionedValue<T>)
        ensures
            vv_view(r) == (value, Map::<u128, u64>::empty().insert(author.0, 1), author),
    {
        let mut version = VectorClock::new();
        version.increment(author);
        VersionedValue { value, version, author }
    }

    /// A value with a given clock.
    pub fn with_version(value: T, version: VectorClock, author: ReplicaId) -> (r: VersionedValue<T>)
        ensures
            vv_view(r) == (value, version@, author),
    {
        VersionedValue { value, version, author }
    }

    /// Whether this value was written before `other`.
    pub fn happens_before(&self, other: &VersionedValue<T>) -> (r: bool)
        ensures
            r == happens_before(self.version@, other.version@),
    {
        self.version.happens_before(&other.version)
    }

    /// Whether neither value was written before the other and their clocks differ.
    pub fn concurrent_with(&self, other: &VersionedValue<T>) -> (r: bool)
        ensures
            r == concurrent(self.version@, other.version@),
    {
        self.version.concurrent_with(&other.version)
    }

    /// A copy.
    pub fn duplicate(&self) -> (r: VersionedValue<T>)
        ensures
            vv_view(r) == vv_view(*self),
    {
        VersionedValue { value: self.value, version: self.version.duplicate_clock(), author: self.author }
    }
}

/// The values of `vals` that were not written before `x`, in order.
pub open spec fn not_before<T>(vals: Seq<(T, Map<u128, u64>, ReplicaId)>, x: (T, Map<u128, u64>, ReplicaId)) -> Seq<(T, Map<u128, u64>, ReplicaId)>
    decreases vals.len(),
{
    if vals.len() == 0 {
        Seq::empty()
    } else if happens_before(vals.last().1, x.1) {
        not_before(vals.drop_last(), x)
    } else {
        not_before(vals.drop_last(), x).push(vals.last())
    }
}

/// The values after writing `x`: those written before it are dropped, and
/// `x` is added unless one of the others was written after it.
pub open spec fn mv_insert<T>(vals: Seq<(T, Map<u128, u64>, ReplicaId)>, x: (T, Map<u128, u64>, ReplicaId)) -> Seq<(T, Map<u128, u64>, ReplicaId)> {
    let kept = not_before(vals, x);
    if exists|i: int| 0 <= i < kept.len() && happens_before(x.1, #[trigger] kept[i].1) {
        kept
    } else {
        kept.push(x)
    }
}

/// The values after merging `b` into `a`: each value of `b` written in turn.
pub open spec fn mv_merge<T>(a: Seq<(T, Map<u128, u64>, ReplicaId)>, b: Seq<(T, Map<u128, u64>, ReplicaId)>) -> Seq<(T, Map<u128, u64>, ReplicaId)>
    decreases b.len(),
{
    if b.len() == 0 {
        a
    } else {
        mv_insert(mv_merge(a, b.drop_last()), b.last())
    }
}

/// `x` was written before `y`, or is `y`.
pub open spec fn covers<T>(x: (T, Map<u128, u64>, ReplicaId), y: (T, Map<u128, u64>, ReplicaId)) -> bool {
    happens_before(x.1, y.1) || x == y
}

/// `x` is covered by some value of `other`.
pub open spec fn mv_covered<T>(x: (T, Map<u128, u64>, ReplicaId), other: Seq<(T, Map<u128, u64>, ReplicaId)>) -> bool {
    exists|j: int| 0 <= j < other.len() && covers(x, #[trigger] other[j])
}

/// The join of the clocks of some values.
pub open spec fn clocks_join<T>(vals: Seq<(T, Map<u128, u64>, ReplicaId)>) -> Map<u128, u64>
    decreases vals.len(),
{
    if vals.len() == 0 {
        Map::empty()
    } else {
        join(clocks_join(vals.drop_last()), vals.last().1)
    }
}

proof fn lemma_hb_irrefl(a: Map<u128, u64>)
    ensures
        !happens_before(a, a),
{
}

proof fn lemma_hb_asym(a: Map<u128, u64>, b: Map<u128, u64>)
    ensures
        !(happens_before(a, b) && happens_before(b, a)),
{
    if happens_before(a, b) && happens_before(b, a) {
        let k = choose|k: u128| #[trigger] get0(a, k) < get0(b, k);
        assert(get0(b, k) <= get0(a, k));
    }
}

/// No value of `vals` was written before another of its values.
pub open spec fn none_before_another<T>(vals: Seq<(T, Map<u128, u64>, ReplicaId)>) -> bool {
    forall|i: int, j: int|
        0 <= i < vals.len() && 0 <= j < vals.len() ==> !happens_before(
            #[trigger] vals[i].1,
            #[trigger] vals[j].1,
        )
}

/// The values not written before `x` are exactly the values of `vals` that
/// were not written before `x`.
proof fn lemma_not_before_contents<T>(vals: Seq<(T, Map<u128, u64>, ReplicaId)>, x: (T, Map<u128, u64>, ReplicaId))
    ensures
        forall|y: (T, Map<u128, u64>, ReplicaId)|
            #[trigger] not_before(vals, x).contains(y) <==> (vals.contains(y) && !happens_before(y.1, x.1)),
    decreases vals.len(),
{
    if vals.len() > 0 {
        let p = vals.drop_last();
        lemma_not_before_contents(p, x);
        assert forall|y: (T, Map<u128, u64>, ReplicaId)|
            #[trigger] not_before(vals, x).contains(y) <==> (vals.contains(y) && !happens_before(y.1, x.1)) by {
            let k = not_before(p, x);
            if vals.contains(y) {
                let i = choose|i: int| 0 <= i < vals.len() && vals[i] == y;
                if i < vals.len() - 1 {
                    assert(p[i] == y);
                }
            }
            if p.contains(y) {
                let i = choose|i: int| 0 <= i < p.len() && p[i] == y;
                assert(vals[i] == y);
            }
            if !happens_before(vals.last().1, x.1) {
                assert(k.push(vals.last())[k.len() as int] == vals.last());
                if k.push(vals.last()).contains(y) {
                    let i = choose|i: int| 0 <= i < k.len() + 1 && k.push(vals.last())[i] == y;
                    if i < k.len() {
                        assert(k[i] == y);
                    }
                }
                if k.contains(y) {
                    let i = choose|i: int| 0 <= i < k.len() && k[i] == y;
                    assert(k.push(vals.last())[i] == y);
                }
            }
            assert(vals[vals.len() - 1] == vals.last());
        }
    }
}

/// Writing a value keeps the register free of stale values: where no value
/// was written before another, still none is afterwards. The written value
/// is held afterwards exactly when no held value was written after it; the
/// held values that were not written before it are all kept; and nothing
/// but those and the written value is held.
pub proof fn mv_insert_keeps_only_latest<T>(vals: Seq<(T, Map<u128, u64>, ReplicaId)>, x: (T, Map<u128, u64>, ReplicaId))
    requires
        none_before_another(vals),
    ensures
        none_before_another(mv_insert(vals, x)),
        mv_insert(vals, x).contains(x) <==> forall|i: int| 0 <= i < vals.len() ==> !happens_before(x.1, #[trigger] vals[i].1),
        forall|y: (T, Map<u128, u64>, ReplicaId)|
            vals.contains(y) && !happens_before(y.1, x.1) ==> #[trigger] mv_insert(vals, x).contains(y),
        forall|y: (T, Map<u128, u64>, ReplicaId)|
            #[trigger] mv_insert(vals, x).contains(y) ==> y == x || vals.contains(y),
{
    lemma_not_before_contents(vals, x);
    let kept = not_before(vals, x);
    let r = mv_insert(vals, x);
    assert forall|a: (T, Map<u128, u64>, ReplicaId), b: (T, Map<u128, u64>, ReplicaId)|
        vals.contains(a) && vals.contains(b) implies !happens_before(a.1, b.1) by {
        let i = choose|i: int| 0 <= i < vals.len() && vals[i] == a;
        let j = choose|j: int| 0 <= j < vals.len() && vals[j] == b;
        assert(!happens_before(vals[i].1, vals[j].1));
    }
    let dominated = exists|i: int| 0 <= i < kept.len() && happens_before(x.1, #[trigger] kept[i].1);
    if dominated {
        let i = choose|i: int| 0 <= i < kept.len() && happens_before(x.1, #[trigger] kept[i].1);
        assert(kept.contains(kept[i]));
        let j = choose|j: int| 0 <= j < vals.len() && vals[j] == kept[i];
        assert(happens_before(x.1, vals[j].1));
        if r.contains(x) {
            assert(vals.contains(x));
            assert(!happens_before(x.1, kept[i].1));
        }
    } else {
        assert(r == kept.push(x));
        assert(r[kept.len() as int] == x);
        assert forall|i: int| 0 <= i < vals.len() implies !happens_before(x.1, #[trigger] vals[i].1) by {
            if happens_before(x.1, vals[i].1) {
                assert(vals.contains(vals[i]));
                if happens_before(vals[i].1, x.1) {
                    lemma_hb_asym(x.1, vals[i].1);
                }
                assert(kept.contains(vals[i]));
                let k = choose|k: int| 0 <= k < kept.len() && kept[k] == vals[i];
                assert(happens_before(x.1, kept[k].1));
            }
        }
    }
    assert forall|y: (T, Map<u128, u64>, ReplicaId)| #[trigger] r.contains(y) implies y == x || vals.contains(y) by {
        if !dominated && y != x {
            let i = choose|i: int| 0 <= i < r.len() && r[i] == y;
            assert(i < kept.len());
            assert(kept[i] == y);
            assert(kept.contains(y));
        }
    }
    assert forall|y: (T, Map<u128, u64>, ReplicaId)| vals.contains(y) && !happens_before(y.1, x.1) implies #[trigger] r.contains(y) by {
        assert(kept.contains(y));
        if !dominated {
            let i = choose|i: int| 0 <= i < kept.len() && kept[i] == y;
            assert(r[i] == y);
        }
    }
    assert forall|i: int, j: int| 0 <= i < r.len() && 0 <= j < r.len() implies !happens_before(#[trigger] r[i].1, #[trigger] r[j].1) by {
        assert(r.contains(r[i]) && r.contains(r[j]));
        let a = r[i];
        let b = r[j];
        if a == x && b == x {
            lemma_hb_irrefl(x.1);
        } else if a == x {
            assert(kept.contains(b) || b == x);
            if b != x {
                assert(!dominated);
                let k = choose|k: int| 0 <= k < kept.len() && kept[k] == b;
                assert(!happens_before(x.1, kept[k].1));
            }
        } else if b == x {
            assert(vals.contains(a));
            if !dominated {
                let k = choose|k: int| 0 <= k < r.len() && r[k] == a;
                assert(k < kept.len());
                assert(kept.contains(a));
            } else {
                assert(kept.contains(a));
            }
        } else {
            assert(vals.contains(a) && vals.contains(b));
        }
    }
}

/// Merging keeps the register free of stale values: where no value of the
/// first register was written before another, still none is afterwards.
pub proof fn mv_merge_keeps_only_latest<T>(a: Seq<(T, Map<u128, u64>, ReplicaId)>, b: Seq<(T, Map<u128, u64>, ReplicaId)>)
    requires
        none_before_another(a),
    ensures
        none_before_another(mv_merge(a, b)),
    decreases b.len(),
{
    if b.len() > 0 {
        mv_merge_keeps_only_latest(a, b.drop_last());
        mv_insert_keeps_only_latest(mv_merge(a, b.drop_last()), b.last());
    }
}

/// A register that keeps every value no other value was written after; it
/// holds several values while writes conflict. Values are compared with
/// `==`, which must be the identity of values.
pub struct MVRegister<T: Copy + PartialEq> {
    values: Vec<VersionedValue<T>>,
}

impl<T: Copy + PartialEq> View for MVRegister<T> {
    type V = Seq<(T, Map<u128, u64>, ReplicaId)>;

    closed spec fn view(&self) -> Seq<(T, Map<u128, u64>, ReplicaId)> {
        self.values@.map_values(|v: VersionedValue<T>| vv_view(v))
    }
}

impl<T: Copy + PartialEq> MVRegister<T> {
    #[verifier::type_invariant]
    closed spec fn eq_is_identity(&self) -> bool {
        &&& obeys_concrete_eq::<T>()
        &&& none_before_another(self@)
    }

    /// An empty register.
    pub fn new() -> (r: MVRegister<T>)
        requires
            obeys_concrete_eq::<T>(),
        ensures
            r@ == Seq::<(T, Map<u128, u64>, ReplicaId)>::empty(),
    {
        let r = MVRegister { values: Vec::new() };
        assert(r@ =~= Seq::<(T, Map<u128, u64>, ReplicaId)>::empty());
        r
    }

    /// Write `x` into a list of values.
    fn insert_value(values: &mut Vec<VersionedValue<T>>, x: VersionedValue<T>)
        ensures
            final(values)@.map_values(|v: VersionedValue<T>| vv_view(v)) == mv_insert(
                old(values)@.map_values(|v: VersionedValue<T>| vv_view(v)),
                vv_view(x),
            ),
    {
        let ghost vs = old(values)@.map_values(|v: VersionedValue<T>| vv_view(v));
        let mut kept: Vec<VersionedValue<T>> = Vec::new();
        let mut old_values: Vec<VersionedValue<T>> = Vec::new();
        std::mem::swap(&mut old_values, values);
        let n = old_values.len();
        let mut i: usize = 0;
        while i < n
            invariant
                n == old_values@.len(),
                vs == old_values@.map_values(|v: VersionedValue<T>| vv_view(v)),
                i <= n,
                kept@.map_values(|v: VersionedValue<T>| vv_view(v)) == not_before(
                    vs.take(i as int),
                    vv_view(x),
                ),
            decreases n - i,
        {
            proof {
                assert(vs.take(i + 1).drop_last() =~= vs.take(i as int));
                assert(vs.take(i + 1).last() == vv_view(old_values@[i as int]));
            }
            if !old_values[i].happens_before(&x) {
                let ghost before = kept@;
                kept.push(old_values[i].duplicate());
                proof {
                    assert(kept@.map_values(|v: VersionedValue<T>| vv_view(v)) =~= before.map_values(
                        |v: VersionedValue<T>| vv_view(v),
                    ).push(vv_view(old_values@[i as int])));
                }
            }
            i = i + 1;
        }
        proof {
            assert(vs.take(n as int) =~= vs);
        }
        let ghost kv = kept@.map_values(|v: VersionedValue<T>| vv_view(v));
        let mut dominated = false;
        let mut j: usize = 0;
        while j < kept.len()
            invariant
                kv == kept@.map_values(|v: VersionedValue<T>| vv_view(v)),
                j <= kept@.len(),
                dominated == exists|k: int| 0 <= k < j && happens_before(x.version@, #[trigger] kv[k].1),
            decreases kept@.len() - j,
        {
            if x.happens_before(&kept[j]) {
                dominated = true;
            }
            proof {
                assert(kv[j as int].1 == kept@[j as int].version@);
                if dominated {
                    if !(exists|k: int| 0 <= k < j && happens_before(x.version@, #[trigger] kv[k].1)) {
                        assert(happens_before(x.version@, kv[j as int].1));
                    }
                }
            }
            j = j + 1;
        }
        if !dominated {
            let ghost before = kept@;
            kept.push(x);
            proof {
                assert(kept@.map_values(|v: VersionedValue<T>| vv_view(v)) =~= before.map_values(
                    |v: VersionedValue<T>| vv_view(v),
                ).push(vv_view(x)));
            }
        }
        *values = kept;
    }

    /// Write a value: the author's entry of `version` is advanced and the
    /// value written with that clock.
    pub fn set(&mut self, value: T, author: ReplicaId, version: VectorClock)
        requires
            get0(version@, author.0) < u64::MAX,
        ensures
            final(self)@ == mv_insert(
                old(self)@,
                (
                    value,
                    version@.insert(author.0, (get0(version@, author.0) + 1) as u64),
                    author,
                ),
            ),
            none_before_another(final(self)@),
    {
        proof {
            use_type_invariant(&*self);
        }
        let mut version = version;
        version.increment(author);
        let vv = VersionedValue::with_version(value, version, author);
        let ghost start = self@;
        let mut values = Vec::new();
        std::mem::swap(&mut values, &mut self.values);
        Self::insert_value(&mut values, vv);
        proof {
            mv_insert_keeps_only_latest(start, vv_view(vv));
        }
        self.values = values;
    }

    /// All current values.
    pub fn values(&self) -> (r: &[VersionedValue<T>])
        ensures
            r@.map_values(|v: VersionedValue<T>| vv_view(v)) == self@,
    {
        self.values.as_slice()
    }

    /// The first current value, if any.
    pub fn value(&self) -> (r: Option<&T>)
        ensures
            match r {
                Some(v) => self@.len() > 0 && *v == self@[0].0,
                None => self@.len() == 0,
            },
    {
        if self.values.len() == 0 {
            None
        } else {
            Some(&self.values[0].value)
        }
    }

    /// Whether several values are held.
    pub fn has_conflicts(&self) -> (r: bool)
        ensures
            r == (self@.len() > 1),
    {
        self.values.len() > 1
    }

    /// Number of values held.
    pub fn conflict_count(&self) -> (r: usize)
        ensures
            r == self@.len(),
    {
        self.values.len()
    }

    /// The join of the clocks of all values held.
    pub fn vector_clock(&self) -> (r: VectorClock)
        ensures
            r@ == clocks_join(self@),
    {
        let ghost s = self@;
        let mut combined = VectorClock::new();
        let mut i: usize = 0;
        while i < self.values.len()
            invariant
                s == self@,
                i <= s.len(),
                combined@ == clocks_join(s.take(i as int)),
            decreases s.len() - i,
        {
            proof {
                assert(s.take(i + 1).drop_last() =~= s.take(i as int));
            }
            combined.update(&self.values[i].version);
            i = i + 1;
        }
        proof {
            assert(s.take(i as int) =~= s);
        }
        combined
    }
}

impl<T: Copy + PartialEq> CRDT for MVRegister<T> {
    open spec fn merge_views(
        a: Seq<(T, Map<u128, u64>, ReplicaId)>,
        b: Seq<(T, Map<u128, u64>, ReplicaId)>,
    ) -> Seq<(T, Map<u128, u64>, ReplicaId)> {
        mv_merge(a, b)
    }

    fn merge(&mut self, other: &Self)
        ensures
            none_before_another(final(self)@),
    {
        proof {
            use_type_invariant(&*self);
        }
        let ghost start = self@;
        let ghost b = other@;
        let mut values = Vec::new();
        std::mem::swap(&mut values, &mut self.values);
        let mut i: usize = 0;
        while i < other.values.len()
            invariant
                b == other@,
                i <= b.len(),
                values@.map_values(|v: VersionedValue<T>| vv_view(v)) == mv_merge(start, b.take(i as int)),
            decreases b.len() - i,
        {
            proof {
                assert(b.take(i + 1).drop_last() =~= b.take(i as int));
            }
            Self::insert_value(&mut values, other.values[i].duplicate());
            i = i + 1;
        }
        proof {
            assert(b.take(i as int) =~= b);
            mv_merge_keeps_only_latest(start, b);
        }
        self.values = values;
    }

    /// Every value of `self` was written before, or equals, some value of `other`.
    fn is_subset_of(&self, other: &Self) -> (r: bool)
        ensures
            r == forall|i: int| 0 <= i < self@.len() ==> mv_covered(#[trigger] self@[i], other@),
    {
        proof {
            use_type_invariant(self);
        }
        let ghost sv = self@;
        let ghost ov = other@;
        let mut i: usize = 0;
        while i < self.values.len()
            invariant
                obeys_concrete_eq::<T>(),
                sv == self@,
                ov == other@,
                i <= sv.len(),
                sv.len() == self.values@.len(),
                ov.len() == other.values@.len(),
                forall|x: int| 0 <= x < i ==> mv_covered(#[trigger] sv[x], ov),
            decreases self.values@.len() - i,
        {
            let a = &self.values[i];
            let mut found = false;
            let mut j: usize = 0;
            while j < other.values.len()
                invariant
                    obeys_concrete_eq::<T>(),
                    sv == self@,
                    ov == other@,
                    i < sv.len(),
                    sv.len() == self.values@.len(),
                    ov.len() == other.values@.len(),
                    sv[i as int] == vv_view(*a),
                    j <= ov.len(),
                    found == exists|k: int| 0 <= k < j && covers(sv[i as int], #[trigger] ov[k]),
                decreases other.values@.len() - j,
            {
                let b = &other.values[j];
                proof {
                    reveal(obeys_concrete_eq);
                    assert(ov[j as int] == vv_view(*b));
                }
                let m = a.happens_before(b) || (a.value == b.value && a.author == b.author
                    && a.version.same_entries(&b.version));
                proof {
                    assert(m == covers(sv[i as int], ov[j as int]));
                }
                found = found || m;
                j = j + 1;
            }
            if !found {
                assert(!mv_covered(sv[i as int], ov));
                return false;
            }
            assert(mv_covered(sv[i as int], ov));
            i = i + 1;
        }
        true
    }

    fn same_state(&self, other: &Self) -> (r: bool) {
        proof {
            use_type_invariant(self);
            reveal(obeys_concrete_eq);
        }
        if self.values.len() != other.values.len() {
            assert(self@.len() != other@.len());
            return false;
        }
        let mut i: usize = 0;
        while i < self.values.len()
            invariant
                obeys_concrete_eq::<T>(),
                self.values@.len() == other.values@.len(),
                i <= self.values@.len(),
                forall|j: int| 0 <= j < i ==> self@[j] == other@[j],
            decreases self.values@.len() - i,
        {
            let a = &self.values[i];
            let b = &other.values[i];
            proof {
                reveal(obeys_concrete_eq);
            }
            if !(a.value == b.value && a.author == b.author && a.version.same_entries(&b.version)) {
                assert(self@[i as int] != other@[i as int]);
                return false;
            }
            i = i + 1;
        }
        assert(self@ =~= other@);
        true
    }

    fn duplicate(&self) -> (r: Self) {
        proof {
            use_type_invariant(self);
        }
        let mut out: Vec<VersionedValue<T>> = Vec::new();
        let mut i: usize = 0;
        while i < self.values.len()
            invariant
                i <= self.values@.len(),
                out@.len() == i,
                forall|j: int| 0 <= j < i ==> vv_view(#[trigger] out@[j]) == vv_view(self.values@[j]),
            decreases self.values@.len() - i,
        {
            out.push(self.values[i].duplicate());
            i = i + 1;
        }
        assert(out@.map_values(|v: VersionedValue<T>| vv_view(v)) =~= self@);
        let r = MVRegister { values: out };
        assert(r@ =~= self@);
        r
    }
}

/// Each value's clock is at most the join of all the clocks, entry by entry.
proof fn lemma_clock_below_join<T>(s: Seq<(T, Map<u128, u64>, ReplicaId)>, i: int, k: u128)
    requires
        0 <= i < s.len(),
    ensures
        get0(s[i].1, k) <= get0(clocks_join(s), k),
    decreases s.len(),
{
    if i < s.len() - 1 {
        lemma_clock_below_join(s.drop_last(), i, k);
        assert(s.drop_last()[i] == s[i]);
    }
}

/// Dropping the values written before `x` changes no entry of the join once
/// `x`'s clock is joined in.
proof fn lemma_not_before_join<T>(vals: Seq<(T, Map<u128, u64>, ReplicaId)>, x: (T, Map<u128, u64>, ReplicaId), k: u128)
    ensures
        max_u64(get0(clocks_join(not_before(vals, x)), k), get0(x.1, k)) == max_u64(
            get0(clocks_join(vals), k),
            get0(x.1, k),
        ),
    decreases vals.len(),
{
    if vals.len() > 0 {
        lemma_not_before_join(vals.drop_last(), x, k);
        if happens_before(vals.last().1, x.1) {
            assert(clock_le(vals.last().1, x.1));
            assert(get0(vals.last().1, k) <= get0(x.1, k));
        } else {
            let kept = not_before(vals.drop_last(), x);
            assert(kept.push(vals.last()).drop_last() =~= kept);
        }
    }
}

/// Writing `x` joins its clock into the register's, entry by entry.
proof fn lemma_insert_join<T>(vals: Seq<(T, Map<u128, u64>, ReplicaId)>, x: (T, Map<u128, u64>, ReplicaId), k: u128)
    ensures
        get0(clocks_join(mv_insert(vals, x)), k) == max_u64(get0(clocks_join(vals), k), get0(x.1, k)),
{
    let kept = not_before(vals, x);
    lemma_not_before_join(vals, x, k);
    if exists|i: int| 0 <= i < kept.len() && happens_before(x.1, #[trigger] kept[i].1) {
        let i = choose|i: int| 0 <= i < kept.len() && happens_before(x.1, #[trigger] kept[i].1);
        assert(clock_le(x.1, kept[i].1));
        assert(get0(x.1, k) <= get0(kept[i].1, k));
        lemma_clock_below_join(kept, i, k);
    } else {
        assert(kept.push(x).drop_last() =~= kept);
    }
}

/// The clock of a merged register is the join of the two registers'
/// clocks: every replica's entry is the larger of its two entries (an
/// absent entry counting as 0).
pub proof fn mv_merge_clock_is_join<T: Copy + PartialEq>(a: MVRegister<T>, b: MVRegister<T>)
    ensures
        forall|k: u128|
            #[trigger] get0(clocks_join(MVRegister::<T>::merge_views(a@, b@)), k) == max_u64(
                get0(clocks_join(a@), k),
                get0(clocks_join(b@), k),
            ),
{
    assert forall|k: u128|
        #[trigger] get0(clocks_join(mv_merge(a@, b@)), k) == max_u64(
            get0(clocks_join(a@), k),
            get0(clocks_join(b@), k),
        ) by {
        lemma_merge_join(a@, b@, k);
    }
}

proof fn lemma_merge_join<T>(a: Seq<(T, Map<u128, u64>, ReplicaId)>, b: Seq<(T, Map<u128, u64>, ReplicaId)>, k: u128)
    ensures
        get0(clocks_join(mv_merge(a, b)), k) == max_u64(get0(clocks_join(a), k), get0(clocks_join(b), k)),
    decreases b.len(),
{
    if b.len() > 0 {
        lemma_merge_join(a, b.drop_last(), k);
        lemma_insert_join(mv_merge(a, b.drop_last()), b.last(), k);
    }
}

} // verus!
