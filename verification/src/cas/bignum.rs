//! Natural numbers of any size as little-endian sequences of 32-bit limbs,
//! with multiplication by a small factor and comparison.
use vstd::prelude::*;

verus! {

/// The base of a limb.
pub open spec fn limb_base() -> nat {
    0x1_0000_0000
}

/// `b` to the power `e`.
pub open spec fn pow_nat(b: nat, e: nat) -> nat
    decreases e,
{
    if e == 0 {
        1
    } else {
        b * pow_nat(b, (e - 1) as nat)
    }
}

/// The number that little-endian limbs stand for.
pub open spec fn limbs_value(s: Seq<u32>) -> nat
    decreases s.len(),
{
    if s.len() == 0 {
        0
    } else {
        (s[0] + limb_base() * limbs_value(s.drop_first())) as nat
    }
}

/// The value splits at any position into the low limbs and the high limbs.
pub proof fn lemma_split(s: Seq<u32>, i: int)
    requires
        0 <= i <= s.len(),
    ensures
        limbs_value(s) == limbs_value(s.take(i)) + pow_nat(limb_base(), i as nat) * limbs_value(
            s.skip(i),
        ),
    decreases i,
{
    if i == 0 {
        assert(s.take(0) =~= Seq::<u32>::empty());
        assert(s.skip(0) =~= s);
        assert(limbs_value(s.take(0)) == 0);
        assert(pow_nat(limb_base(), 0) == 1);
        assert(1 * limbs_value(s) == limbs_value(s));
    } else {
        let r = s.drop_first();
        lemma_split(r, i - 1);
        assert(s.take(i).drop_first() =~= r.take(i - 1));
        assert(r.skip(i - 1) =~= s.skip(i));
        let a = limbs_value(r.take(i - 1));
        let p = pow_nat(limb_base(), (i - 1) as nat);
        let v = limbs_value(s.skip(i));
        assert(s.take(i)[0] == s[0]);
        assert(limbs_value(s.take(i)) == s[0] + limb_base() * a);
        assert(pow_nat(limb_base(), i as nat) == limb_base() * p);
        assert(limbs_value(s) == s[0] + limb_base() * limbs_value(r));
        assert(limbs_value(r) == a + p * v);
        assert(limb_base() * (a + p * v) == limb_base() * a + (limb_base() * p) * v) by (nonlinear_arith);
        assert(limbs_value(s) == limbs_value(s.take(i)) + pow_nat(limb_base(), i as nat) * v);
    }
}

/// Appending a limb adds it at its place.
pub proof fn lemma_push(s: Seq<u32>, x: u32)
    ensures
        limbs_value(s.push(x)) == limbs_value(s) + x * pow_nat(limb_base(), s.len()),
{
    let t = s.push(x);
    lemma_split(t, s.len() as int);
    assert(t.take(s.len() as int) =~= s);
    let u = t.skip(s.len() as int);
    assert(u.len() == 1);
    assert(u[0] == x);
    assert(u.drop_first() =~= Seq::<u32>::empty());
    assert(limbs_value(u.drop_first()) == 0);
    assert(limbs_value(u) == x as nat);
    let p = pow_nat(limb_base(), s.len());
    assert(p * (x as nat) == (x as nat) * p) by (nonlinear_arith);
}

/// A number of `n` limbs is below the base to the power `n`.
pub proof fn lemma_bound(s: Seq<u32>)
    ensures
        limbs_value(s) < pow_nat(limb_base(), s.len()),
    decreases s.len(),
{
    if s.len() > 0 {
        let r = s.drop_first();
        lemma_bound(r);
        let v = limbs_value(r);
        let p = pow_nat(limb_base(), r.len());
        assert(s[0] + limb_base() * v < limb_base() * p) by (nonlinear_arith)
            requires
                s[0] < limb_base(),
                v < p,
                v >= 0,
        ;
    }
}

/// Multiply a number by a small factor.
pub fn mul_small(a: &Vec<u32>, m: u32) -> (r: Vec<u32>)
    ensures
        limbs_value(r@) == limbs_value(a@) * m,
{
    let mut out: Vec<u32> = Vec::new();
    let mut carry: u64 = 0;
    let mut i: usize = 0;
    proof {
        assert(a@.take(0) =~= Seq::<u32>::empty());
        assert(out@ =~= Seq::<u32>::empty());
    }
    while i < a.len()
        invariant
            i <= a@.len(),
            out@.len() == i,
            carry < limb_base(),
            limbs_value(out@) + carry * pow_nat(limb_base(), i as nat) == limbs_value(a@.take(i as int))
                * m,
        decreases a@.len() - i,
    {
        let x = a[i];
        proof {
            assert((x as int) * (m as int) <= 0xffff_ffff * 0xffff_ffff) by (nonlinear_arith)
                requires
                    0 <= x <= 0xffff_ffff,
                    0 <= m <= 0xffff_ffff,
            ;
        }
        let xm: u64 = (x as u64) * (m as u64);
        let t: u64 = xm + carry;
        let lo = (t % 0x1_0000_0000) as u32;
        let hi = t / 0x1_0000_0000;
        let ghost p = pow_nat(limb_base(), i as nat);
        let ghost before = out@;
        out.push(lo);
        proof {
            lemma_push(before, lo);
            let s = a@.take(i + 1);
            lemma_push(a@.take(i as int), x);
            assert(a@.take(i as int).push(x) =~= s);
            assert(pow_nat(limb_base(), (i + 1) as nat) == limb_base() * p);
            assert(lo + hi * limb_base() == x * m + carry);
            let va = limbs_value(a@.take(i as int));
            let vo = limbs_value(before);
            assert(vo + lo * p + hi * (limb_base() * p) == (va + x * p) * m) by (nonlinear_arith)
                requires
                    vo + carry * p == va * m,
                    lo + hi * limb_base() == x * m + carry,
            ;
            assert(hi < limb_base());
        }
        carry = hi;
        i = i + 1;
    }
    let ghost before = out@;
    out.push(carry as u32);
    proof {
        lemma_push(before, carry as u32);
        assert(a@.take(i as int) =~= a@);
    }
    out
}

/// Extend a number with zero limbs up to a length.
fn pad_to(a: &mut Vec<u32>, len: usize)
    ensures
        final(a)@.len() == (if old(a)@.len() >= len {
            old(a)@.len() as int
        } else {
            len as int
        }),
        limbs_value(final(a)@) == limbs_value(old(a)@),
{
    while a.len() < len
        invariant
            limbs_value(a@) == limbs_value(old(a)@),
            a@.len() >= old(a)@.len(),
            old(a)@.len() < len ==> a@.len() <= len,
            old(a)@.len() >= len ==> a@.len() == old(a)@.len(),
        decreases len - a@.len(),
    {
        let ghost before = a@;
        a.push(0);
        proof {
            lemma_push(before, 0);
        }
    }
}

/// Whether `a` stands for a larger number than `b`.
pub fn greater(a: &Vec<u32>, b: &Vec<u32>) -> (r: bool)
    ensures
        r == (limbs_value(a@) > limbs_value(b@)),
{
    let mut x = a.clone();
    let mut y = b.clone();
    proof {
        assert(x@ =~= a@);
        assert(y@ =~= b@);
    }
    let n = if x.len() >= y.len() {
        x.len()
    } else {
        y.len()
    };
    pad_to(&mut x, n);
    pad_to(&mut y, n);
    let mut i: usize = n;
    proof {
        assert(x@.skip(n as int) =~= Seq::<u32>::empty());
        assert(y@.skip(n as int) =~= Seq::<u32>::empty());
    }
    while i > 0
        invariant
            x@.len() == n,
            y@.len() == n,
            i <= n,
            limbs_value(x@) == limbs_value(a@),
            limbs_value(y@) == limbs_value(b@),
            limbs_value(x@.skip(i as int)) == limbs_value(y@.skip(i as int)),
        decreases i,
    {
        let j = i - 1;
        proof {
            assert(x@.skip(j as int).drop_first() =~= x@.skip(i as int));
            assert(y@.skip(j as int).drop_first() =~= y@.skip(i as int));
        }
        if x[j] != y[j] {
            proof {
                lemma_split(x@, j as int);
                lemma_split(y@, j as int);
                lemma_bound(x@.take(j as int));
                lemma_bound(y@.take(j as int));
                let p = pow_nat(limb_base(), j as nat);
                let lx = limbs_value(x@.take(j as int));
                let ly = limbs_value(y@.take(j as int));
                let hx = limbs_value(x@.skip(j as int));
                let hy = limbs_value(y@.skip(j as int));
                if x[j as int] > y[j as int] {
                    assert(hx >= hy + 1);
                    assert(lx + p * hx > ly + p * hy) by (nonlinear_arith)
                        requires
                            hx >= hy + 1,
                            ly < p,
                            lx >= 0,
                    ;
                } else {
                    assert(hy >= hx + 1);
                    assert(ly + p * hy > lx + p * hx) by (nonlinear_arith)
                        requires
                            hy >= hx + 1,
                            lx < p,
                            ly >= 0,
                    ;
                }
            }
            return x[j] > y[j];
        }
        i = j;
    }
    proof {
        assert(x@.skip(0) =~= x@);
        assert(y@.skip(0) =~= y@);
    }
    false
}

} // verus!
