//! Compression of stored blocks with Zstandard, LZ4 and Snappy, and the
//! choice of a Zstandard level from the entropy of a sample of the data.
use crate::cas::bignum::{greater, limbs_value, mul_small, pow_nat};
use crate::cas::integrity::count_byte;
use crate::cas::CASError;
use vstd::prelude::*;

verus! {

/// The Zstandard frame `zstd::bulk::compress` makes of some data at a level;
/// `None` where compression fails.
pub uninterp spec fn zstd_compressed(data: Seq<u8>, level: i32) -> Option<Seq<u8>>;

/// What `zstd::bulk::decompress` recovers from some data with an output
/// capacity; `None` where it fails.
pub uninterp spec fn zstd_decompressed(data: Seq<u8>, capacity: usize) -> Option<Seq<u8>>;

/// `zstd::bulk::compress`. Claimed: the result is `zstd_compressed` of the
/// arguments, and a frame it makes decompresses, with any capacity of at
/// least the original length, to the original data (Zstandard is lossless).
#[verifier::external_body]
fn zstd_bulk_compress(data: &[u8], level: i32) -> (r: Option<Vec<u8>>)
    ensures
        match r {
            Some(c) => {
                &&& zstd_compressed(data@, level) == Some(c@)
                &&& forall|cap: usize|
                    cap >= data@.len() ==> #[trigger] zstd_decompressed(c@, cap) == Some(data@)
            },
            None => zstd_compressed(data@, level) is None,
        },
{
    zstd::bulk::compress(data, level).ok()
}

/// `zstd::bulk::decompress`. Claimed: the result is `zstd_decompressed` of
/// the arguments.
#[verifier::external_body]
fn zstd_bulk_decompress(data: &[u8], capacity: usize) -> (r: Option<Vec<u8>>)
    ensures
        match r {
            Some(d) => zstd_decompressed(data@, capacity) == Some(d@),
            None => zstd_decompressed(data@, capacity) is None,
        },
{
    zstd::bulk::decompress(data, capacity).ok()
}

/// The LZ4 block, with the input length prepended, that
/// `lz4_flex::compress_prepend_size` makes of some data.
pub uninterp spec fn lz4_compressed(data: Seq<u8>) -> Seq<u8>;

/// What `lz4_flex::decompress_size_prepended` recovers; `None` where it fails.
pub uninterp spec fn lz4_decompressed(data: Seq<u8>) -> Option<Seq<u8>>;

/// `lz4_flex::compress_prepend_size`, which cannot fail. Claimed: the result
/// is `lz4_compressed` of the input, and for an input whose length fits the
/// prepended 32-bit size it decompresses to the input.
#[verifier::external_body]
fn lz4_compress_prepend_size(data: &[u8]) -> (r: Vec<u8>)
    ensures
        r@ == lz4_compressed(data@),
        data@.len() <= u32::MAX ==> lz4_decompressed(r@) == Some(data@),
{
    lz4_flex::compress_prepend_size(data)
}

/// `lz4_flex::decompress_size_prepended`. Claimed: the result is
/// `lz4_decompressed` of the input.
#[verifier::external_body]
fn lz4_decompress_size_prepended(data: &[u8]) -> (r: Option<Vec<u8>>)
    ensures
        match r {
            Some(d) => lz4_decompressed(data@) == Some(d@),
            None => lz4_decompressed(data@) is None,
        },
{
    lz4_flex::decompress_size_prepended(data).ok()
}

/// The raw Snappy block `snap::raw::Encoder::compress_vec` makes; `None`
/// where the input is too large.
pub uninterp spec fn snappy_compressed(data: Seq<u8>) -> Option<Seq<u8>>;

/// What `snap::raw::Decoder::decompress_vec` recovers; `None` where it fails.
pub uninterp spec fn snappy_decompressed(data: Seq<u8>) -> Option<Seq<u8>>;

/// `snap::raw::Encoder::new().compress_vec`. Claimed: the result is
/// `snappy_compressed` of the input, and a block it makes decompresses to
/// the input.
#[verifier::external_body]
fn snappy_compress_vec(data: &[u8]) -> (r: Option<Vec<u8>>)
    ensures
        match r {
            Some(c) => snappy_compressed(data@) == Some(c@) && snappy_decompressed(c@) == Some(
                data@,
            ),
            None => snappy_compressed(data@) is None,
        },
{
    snap::raw::Encoder::new().compress_vec(data).ok()
}

/// `snap::raw::Decoder::new().decompress_vec`. Claimed: the result is
/// `snappy_decompressed` of the input.
#[verifier::external_body]
fn snappy_decompress_vec(data: &[u8]) -> (r: Option<Vec<u8>>)
    ensures
        match r {
            Some(d) => snappy_decompressed(data@) == Some(d@),
            None => snappy_decompressed(data@) is None,
        },
{
    snap::raw::Decoder::new().decompress_vec(data).ok()
}

/// Compress with Zstandard at a level. What it gives decompresses back to the
/// data with any capacity of at least the data's length.
pub fn compress_zstd(data: &[u8], level: i32) -> (r: Result<Vec<u8>, CASError>)
    ensures
        match r {
            Ok(c) => {
                &&& zstd_compressed(data@, level) == Some(c@)
                &&& forall|cap: usize|
                    cap >= data@.len() ==> #[trigger] zstd_decompressed(c@, cap) == Some(data@)
            },
            Err(e) => zstd_compressed(data@, level) is None && e is Compression,
        },
{
    match zstd_bulk_compress(data, level) {
        Some(c) => Ok(c),
        None => Err(CASError::Compression("Zstd compression failed".to_string())),
    }
}

/// Decompress Zstandard data into at most `expected_size` bytes.
pub fn decompress_zstd(data: &[u8], expected_size: usize) -> (r: Result<Vec<u8>, CASError>)
    ensures
        match r {
            Ok(d) => zstd_decompressed(data@, expected_size) == Some(d@),
            Err(e) => zstd_decompressed(data@, expected_size) is None && e is Compression,
        },
{
    match zstd_bulk_decompress(data, expected_size) {
        Some(d) => Ok(d),
        None => Err(CASError::Compression("Zstd decompression failed".to_string())),
    }
}

/// Compress with LZ4, the length prepended; this cannot fail. What it gives
/// decompresses back to the data when the length fits in 32 bits.
pub fn compress_lz4(data: &[u8]) -> (r: Result<Vec<u8>, CASError>)
    ensures
        r matches Ok(c) && c@ == lz4_compressed(data@),
        data@.len() <= u32::MAX ==> (r matches Ok(c) && lz4_decompressed(c@) == Some(data@)),
{
    Ok(lz4_compress_prepend_size(data))
}

/// Decompress LZ4 data with its length prepended.
pub fn decompress_lz4(data: &[u8]) -> (r: Result<Vec<u8>, CASError>)
    ensures
        match r {
            Ok(d) => lz4_decompressed(data@) == Some(d@),
            Err(e) => lz4_decompressed(data@) is None && e is Compression,
        },
{
    match lz4_decompress_size_prepended(data) {
        Some(d) => Ok(d),
        None => Err(CASError::Compression("LZ4 decompression failed".to_string())),
    }
}

/// Compress with Snappy. What it gives decompresses back to the data.
pub fn compress_snappy(data: &[u8]) -> (r: Result<Vec<u8>, CASError>)
    ensures
        match r {
            Ok(c) => snappy_compressed(data@) == Some(c@) && snappy_decompressed(c@) == Some(data@),
            Err(e) => snappy_compressed(data@) is None && e is Compression,
        },
{
    match snappy_compress_vec(data) {
        Some(c) => Ok(c),
        None => Err(CASError::Compression("Snappy compression failed".to_string())),
    }
}

/// Decompress Snappy data.
pub fn decompress_snappy(data: &[u8]) -> (r: Result<Vec<u8>, CASError>)
    ensures
        match r {
            Ok(d) => snappy_decompressed(data@) == Some(d@),
            Err(e) => snappy_decompressed(data@) is None && e is Compression,
        },
{
    match snappy_decompress_vec(data) {
        Some(d) => Ok(d),
        None => Err(CASError::Compression("Snappy decompression failed".to_string())),
    }
}

/// Number of bytes sampled to estimate entropy: the first 1024, or all of
/// shorter data.
pub open spec fn sample_len(data: Seq<u8>) -> nat {
    if data.len() < 1024 {
        data.len()
    } else {
        1024
    }
}

/// Occurrences of a byte value in the sample.
pub open spec fn sample_count(data: Seq<u8>, b: u8) -> nat {
    count_byte(data.take(sample_len(data) as int), b)
}

/// The product of `c^c` over the counts `c` of the byte values below `k`.
pub open spec fn count_power_product(data: Seq<u8>, k: nat) -> nat
    decreases k,
{
    if k == 0 {
        1
    } else {
        let c = sample_count(data, (k - 1) as u8);
        count_power_product(data, (k - 1) as nat) * pow_nat(c, c)
    }
}

/// Whether the Shannon entropy of the sample, in bits per byte, exceeds
/// `bits`. With `n` sampled bytes and counts `c`, the entropy is
/// `log2 n - (1/n)·Σ c·log2 c`, so it exceeds `bits` exactly when
/// `n^n > 2^(bits·n) · Π c^c`.
pub open spec fn entropy_exceeds(data: Seq<u8>, bits: nat) -> bool {
    let n = sample_len(data);
    pow_nat(n, n) > pow_nat(2, bits * n) * count_power_product(data, 256)
}

/// The Zstandard level for data: 1 (fast) above 7 bits of entropy per byte,
/// 6 (balanced) above 4, and 19 (strong) otherwise.
pub open spec fn optimal_level(data: Seq<u8>) -> i32 {
    if entropy_exceeds(data, 7) {
        1
    } else if entropy_exceeds(data, 4) {
        6
    } else {
        19
    }
}

/// The count of a byte value is its multiplicity in the bytes' multiset.
proof fn lemma_count_byte_multiset(s: Seq<u8>, b: u8)
    ensures
        count_byte(s, b) == s.to_multiset().count(b),
    decreases s.len(),
{
    broadcast use vstd::multiset::group_multiset_axioms;
    broadcast use vstd::seq_lib::group_to_multiset_ensures;

    if s.len() == 0 {
        assert(!s.contains(b));
    } else {
        lemma_count_byte_multiset(s.drop_last(), b);
        assert(s =~= s.drop_last().push(s.last()));
        vstd::seq_lib::to_multiset_build(s.drop_last(), s.last());
    }
}

/// Samples with the same byte counts give the same count product.
proof fn lemma_product_same_counts(d1: Seq<u8>, d2: Seq<u8>, k: nat)
    requires
        k <= 256,
        forall|b: u8| #[trigger] sample_count(d1, b) == sample_count(d2, b),
    ensures
        count_power_product(d1, k) == count_power_product(d2, k),
    decreases k,
{
    if k > 0 {
        lemma_product_same_counts(d1, d2, (k - 1) as nat);
        assert(sample_count(d1, (k - 1) as u8) == sample_count(d2, (k - 1) as u8));
    }
}

/// The count product of an empty sample is 1.
proof fn lemma_product_empty(k: nat)
    ensures
        count_power_product(Seq::<u8>::empty(), k) == 1,
    decreases k,
{
    if k > 0 {
        lemma_product_empty((k - 1) as nat);
        let c = sample_count(Seq::<u8>::empty(), (k - 1) as u8);
        assert(Seq::<u8>::empty().take(0) =~= Seq::<u8>::empty());
        assert(c == 0);
        assert(pow_nat(0, 0) == 1);
    }
}

/// Empty data gets the strongest level, 19.
pub proof fn optimal_level_of_empty_data()
    ensures
        optimal_level(Seq::<u8>::empty()) == 19,
{
    lemma_product_empty(256);
    assert(pow_nat(0, 0) == 1);
    assert(pow_nat(2, 0) == 1);
    assert(7 * 0 == 0);
    assert(4 * 0 == 0);
}

/// The level depends only on the multiset of the sampled bytes (the first
/// 1024): later bytes and the order of the sampled ones do not matter.
pub proof fn optimal_level_depends_on_sampled_bytes(d1: Seq<u8>, d2: Seq<u8>)
    requires
        d1.take(sample_len(d1) as int).to_multiset() == d2.take(sample_len(d2) as int).to_multiset(),
    ensures
        optimal_level(d1) == optimal_level(d2),
{
    broadcast use vstd::seq_lib::group_to_multiset_ensures;

    let s1 = d1.take(sample_len(d1) as int);
    let s2 = d2.take(sample_len(d2) as int);
    assert(s1.len() == s1.to_multiset().len());
    assert(s2.len() == s2.to_multiset().len());
    assert(sample_len(d1) == sample_len(d2));
    assert forall|b: u8| #[trigger] sample_count(d1, b) == sample_count(d2, b) by {
        lemma_count_byte_multiset(s1, b);
        lemma_count_byte_multiset(s2, b);
    }
    lemma_product_same_counts(d1, d2, 256);
}

/// Data of at most 1024 bytes is sampled whole: its level depends only on
/// the multiset of all its bytes, so reordering them changes nothing.
pub proof fn optimal_level_of_short_data_uses_all_bytes(d1: Seq<u8>, d2: Seq<u8>)
    requires
        d1.len() <= 1024,
        d1.to_multiset() == d2.to_multiset(),
    ensures
        optimal_level(d1) == optimal_level(d2),
{
    broadcast use vstd::seq_lib::group_to_multiset_ensures;

    assert(d1.len() == d1.to_multiset().len());
    assert(d2.len() == d2.to_multiset().len());
    assert(d1.take(d1.len() as int) =~= d1);
    assert(d2.take(d2.len() as int) =~= d2);
    assert(d1.take(sample_len(d1) as int) == d1);
    assert(d2.take(sample_len(d2) as int) == d2);
    optimal_level_depends_on_sampled_bytes(d1, d2);
}

/// Bytes after the first 1024 do not count: data has the level of its
/// first 1024 bytes.
pub proof fn optimal_level_ignores_bytes_after_1024(d: Seq<u8>)
    requires
        d.len() >= 1024,
    ensures
        optimal_level(d) == optimal_level(d.take(1024)),
{
    let t = d.take(1024);
    assert(t.take(1024) =~= t);
    assert(d.take(sample_len(d) as int) == t.take(sample_len(t) as int));
    optimal_level_depends_on_sampled_bytes(d, t);
}

/// Counts of each byte value in the sample.
fn sample_histogram(data: &[u8]) -> (r: Vec<u64>)
    ensures
        r@.len() == 256,
        forall|b: int| 0 <= b < 256 ==> #[trigger] r@[b] == sample_count(data@, b as u8),
        forall|b: int| 0 <= b < 256 ==> r@[b] <= 1024,
{
    let n: usize = if data.len() < 1024 {
        data.len()
    } else {
        1024
    };
    let mut counts: Vec<u64> = Vec::new();
    let mut k: usize = 0;
    while k < 256
        invariant
            k <= 256,
            counts@.len() == k,
            forall|b: int| 0 <= b < k ==> counts@[b] == 0,
        decreases 256 - k,
    {
        counts.push(0);
        k = k + 1;
    }
    let mut i: usize = 0;
    while i < n
        invariant
            n == sample_len(data@),
            n <= data@.len(),
            i <= n,
            counts@.len() == 256,
            forall|b: int| 0 <= b < 256 ==> #[trigger] counts@[b] == count_byte(data@.take(i as int), b as u8),
            forall|b: int| 0 <= b < 256 ==> counts@[b] <= i,
        decreases n - i,
    {
        let x = data[i];
        let idx = x as usize;
        let v = counts[idx];
        counts.set(idx, v + 1);
        proof {
            let t = data@.take(i + 1);
            assert(t.drop_last() =~= data@.take(i as int));
            assert(t.last() == x);
            assert forall|b: int| 0 <= b < 256 implies #[trigger] counts@[b] == count_byte(t, b as u8) by {
                if b == idx {
                    assert(b as u8 == x);
                } else {
                    assert(b as u8 != x);
                }
            }
        }
        i = i + 1;
    }
    counts
}

/// Whether the entropy of the sample exceeds `bits` bits per byte, from its
/// histogram, in exact integer arithmetic.
fn entropy_above(counts: &Vec<u64>, n: usize, bits: usize, data: Ghost<Seq<u8>>) -> (r: bool)
    requires
        counts@.len() == 256,
        forall|b: int| 0 <= b < 256 ==> #[trigger] counts@[b] == sample_count(data@, b as u8),
        forall|b: int| 0 <= b < 256 ==> counts@[b] <= 1024,
        n == sample_len(data@),
        bits <= 7,
    ensures
        r == entropy_exceeds(data@, bits as nat),
{
    let mut x: Vec<u32> = Vec::new();
    x.push(1);
    proof {
        assert(x@.drop_first() =~= Seq::<u32>::empty());
        assert(limbs_value(x@.drop_first()) == 0);
        assert(limbs_value(x@) == 1);
    }
    let mut j: usize = 0;
    while j < n
        invariant
            n <= 1024,
            j <= n,
            limbs_value(x@) == pow_nat(n as nat, j as nat),
        decreases n - j,
    {
        let ghost before = limbs_value(x@);
        x = mul_small(&x, n as u32);
        proof {
            assert(before * n == n * before) by (nonlinear_arith);
        }
        j = j + 1;
    }
    let mut y: Vec<u32> = Vec::new();
    y.push(1);
    proof {
        assert(y@.drop_first() =~= Seq::<u32>::empty());
        assert(limbs_value(y@.drop_first()) == 0);
        assert(limbs_value(y@) == 1);
    }
    let mut b: usize = 0;
    while b < 256
        invariant
            b <= 256,
            counts@.len() == 256,
            forall|q: int| 0 <= q < 256 ==> #[trigger] counts@[q] == sample_count(data@, q as u8),
            forall|q: int| 0 <= q < 256 ==> counts@[q] <= 1024,
            limbs_value(y@) == count_power_product(data@, b as nat),
        decreases 256 - b,
    {
        let c = counts[b];
        let ghost base = limbs_value(y@);
        let mut t: u64 = 0;
        assert(pow_nat(c as nat, 0) == 1);
        assert(base * pow_nat(c as nat, 0) == base) by (nonlinear_arith)
            requires
                pow_nat(c as nat, 0) == 1,
        ;
        while t < c
            invariant
                c <= 1024,
                t <= c,
                limbs_value(y@) == base * pow_nat(c as nat, t as nat),
            decreases c - t,
        {
            let ghost before = pow_nat(c as nat, t as nat);
            y = mul_small(&y, c as u32);
            proof {
                assert(base * before * c == base * (c * before)) by (nonlinear_arith);
            }
            t = t + 1;
        }
        proof {
            assert(c == sample_count(data@, b as u8));
            assert((b + 1 - 1) as u8 == b as u8);
        }
        b = b + 1;
    }
    assert(bits * n <= 7 * 1024) by (nonlinear_arith)
        requires
            bits <= 7,
            n <= 1024,
    ;
    let steps = bits * n;
    let ghost product = limbs_value(y@);
    let mut k: usize = 0;
    assert(pow_nat(2, 0) == 1);
    assert(product * pow_nat(2, 0) == product) by (nonlinear_arith)
        requires
            pow_nat(2, 0) == 1,
    ;
    while k < steps
        invariant
            k <= steps,
            limbs_value(y@) == product * pow_nat(2, k as nat),
        decreases steps - k,
    {
        let ghost before = pow_nat(2, k as nat);
        y = mul_small(&y, 2);
        proof {
            assert(product * before * 2 == product * (2 * before)) by (nonlinear_arith);
        }
        k = k + 1;
    }
    proof {
        assert(product * pow_nat(2, steps as nat) == pow_nat(2, (bits * n) as nat) * product) by (nonlinear_arith)
            requires
                steps == bits * n,
        ;
    }
    greater(&x, &y)
}

/// Estimate the Zstandard level suited to some data from the entropy of its
/// first 1024 bytes: fast for random-looking data, strong for structured
/// data.
pub fn estimate_optimal_level(data: &[u8]) -> (r: i32)
    ensures
        r == optimal_level(data@),
{
    let n: usize = if data.len() < 1024 {
        data.len()
    } else {
        1024
    };
    let counts = sample_histogram(data);
    if entropy_above(&counts, n, 7, Ghost(data@)) {
        1
    } else if entropy_above(&counts, n, 4, Ghost(data@)) {
        6
    } else {
        19
    }
}

} // verus!
