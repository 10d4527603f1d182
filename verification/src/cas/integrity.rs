//! Integrity of content-addressed blocks: BLAKE3 checksums, Merkle trees with
//! inclusion proofs, batch verification and majority-vote repair.
//!
//! Each pair of sibling hashes is combined smaller-first (in byte order), both
//! when a tree is built and when a proof is checked, so that a proof carries
//! only its sibling hashes.
use crate::cas::CASError;
use crate::text::{hex_string, hex_text};
use vstd::prelude::*;
use vstd::string::StringExecFns;

verus! {

broadcast use vstd::array::group_array_axioms;

/// A BLAKE3 digest of 32 bytes.
pub type BlockHash = [u8; 32];

/// The BLAKE3 digest of a byte string.
pub uninterp spec fn blake3_digest(data: Seq<u8>) -> Seq<u8>;

/// `blake3::hash`: the 32-byte BLAKE3 digest of `data`. Claimed: the result is
/// the digest named `blake3_digest` of the input bytes.
#[verifier::external_body]
fn blake3_hash(data: &[u8]) -> (r: [u8; 32])
    ensures
        r@ == blake3_digest(data@),
{
    *blake3::hash(data).as_bytes()
}

/// The views of a sequence of hashes.
pub open spec fn hashes_view(v: Seq<[u8; 32]>) -> Seq<Seq<u8>> {
    v.map_values(|h: [u8; 32]| h@)
}

/// Lexicographic byte order, a proper prefix before its extensions.
pub open spec fn lex_lt(a: Seq<u8>, b: Seq<u8>) -> bool
    decreases a.len(),
{
    if a.len() == 0 || b.len() == 0 {
        a.len() < b.len()
    } else if a[0] != b[0] {
        a[0] < b[0]
    } else {
        lex_lt(a.drop_first(), b.drop_first())
    }
}

/// The byte order is asymmetric and total.
pub proof fn lemma_lex_total(a: Seq<u8>, b: Seq<u8>)
    ensures
        !(lex_lt(a, b) && lex_lt(b, a)),
        (!lex_lt(a, b) && !lex_lt(b, a)) ==> a == b,
    decreases a.len(),
{
    if a.len() == 0 || b.len() == 0 {
        if a.len() == b.len() {
            assert(a =~= b);
        }
    } else if a[0] != b[0] {
    } else {
        lemma_lex_total(a.drop_first(), b.drop_first());
        if !lex_lt(a, b) && !lex_lt(b, a) {
            assert(a =~= seq![a[0]] + a.drop_first());
            assert(b =~= seq![b[0]] + b.drop_first());
        }
    }
}

/// The digest of two sibling hashes, smaller first.
pub open spec fn pair_digest(a: Seq<u8>, b: Seq<u8>) -> Seq<u8> {
    if lex_lt(a, b) {
        blake3_digest(a + b)
    } else {
        blake3_digest(b + a)
    }
}

pub proof fn lemma_pair_digest_symmetric(a: Seq<u8>, b: Seq<u8>)
    ensures
        pair_digest(a, b) == pair_digest(b, a),
{
    lemma_lex_total(a, b);
}

/// The level above `s` in a Merkle tree: each pair hashed, an odd last node
/// carried up unchanged.
pub open spec fn next_level(s: Seq<Seq<u8>>) -> Seq<Seq<u8>> {
    Seq::new(
        ((s.len() + 1) / 2) as nat,
        |i: int|
            if 2 * i + 1 < s.len() {
                pair_digest(s[2 * i], s[2 * i + 1])
            } else {
                s[2 * i]
            },
    )
}

/// The Merkle root of a non-empty sequence of leaf hashes.
pub open spec fn merkle_root(s: Seq<Seq<u8>>) -> Seq<u8>
    decreases s.len(),
{
    if s.len() <= 1 {
        s[0]
    } else {
        merkle_root(next_level(s))
    }
}

/// The index of a node's sibling on its level.
pub open spec fn sibling_index(i: int) -> int {
    if i % 2 == 0 {
        i + 1
    } else {
        i - 1
    }
}

/// The sibling hashes on the path from leaf `i` to the root, bottom up; a
/// node carried up alone has none.
pub open spec fn proof_siblings(s: Seq<Seq<u8>>, i: int) -> Seq<Seq<u8>>
    decreases s.len(),
{
    if s.len() <= 1 {
        Seq::empty()
    } else {
        (if sibling_index(i) < s.len() {
            seq![s[sibling_index(i)]]
        } else {
            Seq::empty()
        }) + proof_siblings(next_level(s), i / 2)
    }
}

/// The hashes on the path from leaf `i` up to, not including, the root.
pub open spec fn path_hashes(s: Seq<Seq<u8>>, i: int) -> Seq<Seq<u8>>
    decreases s.len(),
{
    if s.len() <= 1 {
        Seq::empty()
    } else {
        seq![s[i]] + path_hashes(next_level(s), i / 2)
    }
}

/// The hash reached from `cur` by combining it with each sibling in turn.
pub open spec fn fold_proof(cur: Seq<u8>, sibs: Seq<Seq<u8>>) -> Seq<u8>
    decreases sibs.len(),
{
    if sibs.len() == 0 {
        cur
    } else {
        fold_proof(pair_digest(cur, sibs[0]), sibs.drop_first())
    }
}

/// Combining a leaf with its proof siblings gives the Merkle root.
pub proof fn lemma_fold_reaches_root(s: Seq<Seq<u8>>, i: int)
    requires
        0 <= i < s.len(),
    ensures
        fold_proof(s[i], proof_siblings(s, i)) == merkle_root(s),
    decreases s.len(),
{
    if s.len() > 1 {
        let t = next_level(s);
        let j = i / 2;
        lemma_fold_reaches_root(t, j);
        let rest = proof_siblings(t, j);
        if sibling_index(i) < s.len() {
            let sibs = seq![s[sibling_index(i)]] + rest;
            assert(sibs.drop_first() =~= rest);
            if i % 2 == 1 {
                lemma_pair_digest_symmetric(s[i], s[i - 1]);
            }
            assert(pair_digest(s[i], s[sibling_index(i)]) == t[j]);
        } else {
            assert(Seq::<Seq<u8>>::empty() + rest =~= rest);
        }
    }
}

/// The position of the first occurrence of `x` in `s`.
pub open spec fn leaf_position(s: Seq<Seq<u8>>, x: Seq<u8>) -> int {
    choose|i: int| 0 <= i < s.len() && s[i] == x && forall|j: int| 0 <= j < i ==> s[j] != x
}

/// The root that a proof is checked against: the tree's root, or 32 zero
/// bytes for the empty tree.
pub open spec fn root_or_zero(leaves: Seq<Seq<u8>>) -> Seq<u8> {
    if leaves.len() == 0 {
        Seq::new(32, |i: int| 0u8)
    } else {
        merkle_root(leaves)
    }
}

/// Whether the levels of a tree are consistent: each level above the first
/// is the next level of the one below, down to a single root.
pub open spec fn levels_ok(lv: Seq<Seq<Seq<u8>>>) -> bool {
    lv.len() == 0 || {
        &&& lv[0].len() >= 1
        &&& lv.last().len() == 1
        &&& forall|k: int| 0 <= k < lv.len() - 1 ==> #[trigger] lv[k].len() >= 2 && lv[k + 1] == next_level(lv[k])
    }
}

pub proof fn lemma_levels_root(lv: Seq<Seq<Seq<u8>>>)
    requires
        levels_ok(lv),
        lv.len() > 0,
    ensures
        merkle_root(lv[0]) == lv.last()[0],
    decreases lv.len(),
{
    if lv.len() > 1 {
        let rest = lv.drop_first();
        assert forall|k: int| 0 <= k < rest.len() - 1 implies #[trigger] rest[k].len() >= 2 && rest[k + 1] == next_level(rest[k]) by {
            assert(lv[k + 1].len() >= 2);
        }
        assert(lv[0].len() >= 2);
        lemma_levels_root(rest);
    }
}

/// A node of a Merkle tree.
#[derive(Debug, Clone)]
pub struct MerkleNode {
    /// Hash of the node.
    pub hash: BlockHash,
    /// Level in the tree (0 for leaves).
    pub level: u8,
    /// Index on its level.
    pub index: u64,
    /// Hashes of its children (none for a leaf).
    pub children: Vec<BlockHash>,
}

/// Merkle tree over leaf hashes, kept level by level from the leaves up.
#[derive(Debug)]
pub struct MerkleTree {
    levels: Vec<Vec<BlockHash>>,
}

/// Inclusion proof of a leaf hash.
#[derive(Debug, Clone)]
pub struct IntegrityProof {
    /// The leaf hash being proved.
    pub data_hash: BlockHash,
    /// The hashes on the path from the leaf up to the root.
    pub merkle_path: Vec<BlockHash>,
    /// The sibling hashes to combine with, bottom up.
    pub siblings: Vec<BlockHash>,
    /// The root the proof leads to.
    pub root_hash: BlockHash,
}

impl MerkleTree {
    pub closed spec fn level_views(&self) -> Seq<Seq<Seq<u8>>> {
        self.levels@.map_values(|l: Vec<BlockHash>| hashes_view(l@))
    }

    #[verifier::type_invariant]
    closed spec fn well_formed(&self) -> bool {
        levels_ok(self.level_views())
    }
}

impl View for MerkleTree {
    /// The leaf hashes.
    type V = Seq<Seq<u8>>;

    closed spec fn view(&self) -> Seq<Seq<u8>> {
        if self.levels@.len() == 0 {
            Seq::empty()
        } else {
            hashes_view(self.levels@[0]@)
        }
    }
}

/// Whether two hashes are equal.
pub(crate) fn hash_eq(a: &BlockHash, b: &BlockHash) -> (r: bool)
    ensures
        r == (a@ == b@),
{
    let mut i: usize = 0;
    while i < 32
        invariant
            i <= 32,
            forall|j: int| 0 <= j < i ==> a@[j] == b@[j],
        decreases 32 - i,
    {
        if a[i] != b[i] {
            return false;
        }
        i = i + 1;
    }
    assert(a@ =~= b@);
    true
}

/// Whether `a` comes before `b` in byte order.
fn hash_lt(a: &BlockHash, b: &BlockHash) -> (r: bool)
    ensures
        r == lex_lt(a@, b@),
{
    let mut i: usize = 0;
    assert(a@.skip(0) =~= a@);
    assert(b@.skip(0) =~= b@);
    while i < 32
        invariant
            i <= 32,
            lex_lt(a@, b@) == lex_lt(a@.skip(i as int), b@.skip(i as int)),
        decreases 32 - i,
    {
        assert(a@.skip(i as int).drop_first() =~= a@.skip(i + 1));
        assert(b@.skip(i as int).drop_first() =~= b@.skip(i + 1));
        if a[i] != b[i] {
            return a[i] < b[i];
        }
        i = i + 1;
    }
    false
}

/// The digest of two sibling hashes, smaller first.
fn hash_pair(a: &BlockHash, b: &BlockHash) -> (r: BlockHash)
    ensures
        r@ == pair_digest(a@, b@),
{
    let (first, second) = if hash_lt(a, b) {
        (a, b)
    } else {
        (b, a)
    };
    let mut buf: Vec<u8> = Vec::new();
    let mut i: usize = 0;
    while i < 32
        invariant
            i <= 32,
            buf@ =~= first@.take(i as int),
        decreases 32 - i,
    {
        buf.push(first[i]);
        i = i + 1;
    }
    let mut j: usize = 0;
    while j < 32
        invariant
            j <= 32,
            buf@ =~= first@ + second@.take(j as int),
        decreases 32 - j,
    {
        buf.push(second[j]);
        j = j + 1;
    }
    assert(second@.take(32) =~= second@);
    blake3_hash(buf.as_slice())
}

/// The level above a level of hashes.
fn build_next_level(cur: &Vec<BlockHash>) -> (r: Vec<BlockHash>)
    ensures
        hashes_view(r@) == next_level(hashes_view(cur@)),
{
    let n = cur.len();
    let half = n / 2 + n % 2;
    let mut out: Vec<BlockHash> = Vec::new();
    let mut k: usize = 0;
    while k < half
        invariant
            n == cur@.len(),
            half == n / 2 + n % 2,
            k <= half,
            out@.len() == k,
            forall|j: int| 0 <= j < k ==> #[trigger] out@[j]@ == next_level(hashes_view(cur@))[j],
        decreases half - k,
    {
        let i = 2 * k;
        if i + 1 < n {
            let h = hash_pair(&cur[i], &cur[i + 1]);
            out.push(h);
        } else {
            out.push(cur[i]);
        }
        k = k + 1;
    }
    assert(hashes_view(out@) =~= next_level(hashes_view(cur@)));
    out
}

impl MerkleTree {
    /// An empty tree, with no root.
    pub fn new() -> (r: MerkleTree)
        ensures
            r@ == Seq::<Seq<u8>>::empty(),
    {
        let t = MerkleTree { levels: Vec::new() };
        proof {
            assert(levels_ok(t.level_views()));
        }
        t
    }

    /// Build the tree over the given leaf hashes; an empty list is refused.
    pub fn from_leaves(leaves: Vec<BlockHash>) -> (r: Result<MerkleTree, CASError>)
        ensures
            match r {
                Ok(t) => leaves@.len() > 0 && t@ == hashes_view(leaves@),
                Err(e) => leaves@.len() == 0 && e is Corruption,
            },
    {
        if leaves.len() == 0 {
            return Err(
                CASError::Corruption {
                    details: "Cannot create Merkle tree from empty leaves".to_string(),
                },
            );
        }
        let ghost leaves_view = hashes_view(leaves@);
        let mut levels: Vec<Vec<BlockHash>> = Vec::new();
        levels.push(leaves);
        loop
            invariant
                levels@.len() >= 1,
                hashes_view(levels@[0]@) == leaves_view,
                leaves_view.len() >= 1,
                levels@.last()@.len() >= 1,
                forall|k: int|
                    0 <= k < levels@.len() - 1 ==> #[trigger] levels@[k]@.len() >= 2
                        && hashes_view(levels@[k + 1]@) == next_level(hashes_view(levels@[k]@)),
            ensures
                levels@.len() >= 1,
                levels@.last()@.len() == 1,
                hashes_view(levels@[0]@) == leaves_view,
                forall|k: int|
                    0 <= k < levels@.len() - 1 ==> #[trigger] levels@[k]@.len() >= 2
                        && hashes_view(levels@[k + 1]@) == next_level(hashes_view(levels@[k]@)),
            decreases levels@.last()@.len(),
        {
            let last = levels.len() - 1;
            if levels[last].len() <= 1 {
                break;
            }
            let next = build_next_level(&levels[last]);
            proof {
                assert(next@.len() == hashes_view(next@).len());
            }
            levels.push(next);
        }
        proof {
            let lv = levels@.map_values(|l: Vec<BlockHash>| hashes_view(l@));
            assert forall|k: int| 0 <= k < lv.len() - 1 implies #[trigger] lv[k].len() >= 2 && lv[k + 1] == next_level(lv[k]) by {
                assert(levels@[k]@.len() >= 2);
            }
            assert(lv[0] == leaves_view);
            assert(lv.last() == hashes_view(levels@.last()@));
            assert(levels_ok(lv));
        }
        Ok(MerkleTree { levels })
    }

    /// The root hash, if the tree has any leaf.
    pub fn root_hash(&self) -> (r: Option<BlockHash>)
        ensures
            match r {
                Some(h) => self@.len() > 0 && h@ == merkle_root(self@),
                None => self@.len() == 0,
            },
    {
        proof {
            use_type_invariant(self);
            if self@.len() > 0 {
                lemma_levels_root(self.level_views());
            }
        }
        if self.levels.len() == 0 {
            None
        } else {
            let last = self.levels.len() - 1;
            proof {
                assert(self.levels@[last as int]@.len() == self.level_views()[last as int].len());
            }
            Some(self.levels[last][0])
        }
    }

    /// An inclusion proof for a leaf hash: its sibling hashes up to the root.
    /// Fails when the tree is empty or does not hold the leaf.
    pub fn generate_proof(&self, leaf_hash: BlockHash) -> (r: Result<IntegrityProof, CASError>)
        ensures
            match r {
                Ok(p) => {
                    &&& self@.contains(leaf_hash@)
                    &&& p.data_hash@ == leaf_hash@
                    &&& p.root_hash@ == merkle_root(self@)
                    &&& hashes_view(p.siblings@) == proof_siblings(
                        self@,
                        leaf_position(self@, leaf_hash@),
                    )
                    &&& hashes_view(p.merkle_path@) == path_hashes(
                        self@,
                        leaf_position(self@, leaf_hash@),
                    )
                },
                Err(e) => {
                    &&& !self@.contains(leaf_hash@)
                    &&& e matches CASError::Corruption { details } && details@ == (if self@.len() == 0 {
                        "Merkle tree has no root"@
                    } else {
                        "Leaf hash not found in tree: "@ + hex_text(leaf_hash@)
                    })
                },
            },
    {
        proof {
            use_type_invariant(self);
            if self@.len() > 0 {
                lemma_levels_root(self.level_views());
            }
        }
        let root = match self.root_hash() {
            Some(h) => h,
            None => {
                return Err(
                    CASError::Corruption { details: "Merkle tree has no root".to_string() },
                );
            },
        };
        let ghost s = self@;
        let ghost lv = self.level_views();
        let leaves = &self.levels[0];
        let mut pos: usize = 0;
        let mut found = false;
        while !found && pos < leaves.len()
            invariant
                s == hashes_view(leaves@),
                pos <= leaves@.len(),
                forall|j: int| 0 <= j < pos ==> s[j] != leaf_hash@,
                found ==> pos < leaves@.len() && s[pos as int] == leaf_hash@,
            decreases leaves@.len() - pos + (if found { 0int } else { 1int }),
        {
            if hash_eq(&leaves[pos], &leaf_hash) {
                found = true;
            } else {
                pos = pos + 1;
            }
        }
        if !found {
            proof {
                assert(pos == leaves@.len());
                assert forall|j: int| 0 <= j < s.len() implies s[j] != leaf_hash@ by {}
            }
            let hex = hex_string(vstd::array::array_as_slice(&leaf_hash));
            let details = String::from_str("Leaf hash not found in tree: ").concat(hex.as_str());
            return Err(CASError::Corruption { details });
        }
        let ghost i0 = pos as int;
        proof {
            assert(s[i0] == leaf_hash@);
            assert(s.contains(leaf_hash@));
            assert(0 <= i0 < s.len() && s[i0] == leaf_hash@ && forall|j: int| 0 <= j < i0 ==> s[j] != leaf_hash@);
            let c = leaf_position(s, leaf_hash@);
            assert(0 <= c < s.len() && s[c] == leaf_hash@ && forall|j: int| 0 <= j < c ==> s[j] != leaf_hash@);
            if c < i0 {
            } else if c > i0 {
                assert(s[i0] != leaf_hash@);
            }
            assert(c == i0);
        }
        let mut siblings: Vec<BlockHash> = Vec::new();
        let mut path: Vec<BlockHash> = Vec::new();
        let mut idx = pos;
        let mut k: usize = 0;
        let nlev = self.levels.len();
        while k + 1 < nlev
            invariant
                nlev == self.levels@.len(),
                lv == self.level_views(),
                levels_ok(lv),
                lv.len() == nlev,
                nlev >= 1,
                k < nlev,
                idx < lv[k as int].len(),
                proof_siblings(s, i0) == hashes_view(siblings@) + proof_siblings(lv[k as int], idx as int),
                path_hashes(s, i0) == hashes_view(path@) + path_hashes(lv[k as int], idx as int),
            decreases nlev - k,
        {
            let level = &self.levels[k];
            proof {
                assert(lv[k as int].len() >= 2 && lv[k as int + 1] == next_level(lv[k as int]));
                assert(level@.len() == lv[k as int].len());
            }
            let ghost cur = lv[k as int];
            let ghost old_s = siblings@;
            let ghost old_p = path@;
            path.push(level[idx]);
            let sib = if idx % 2 == 0 {
                idx + 1
            } else {
                idx - 1
            };
            if sib < level.len() {
                siblings.push(level[sib]);
                proof {
                    assert(hashes_view(siblings@) =~= hashes_view(old_s) + seq![cur[sib as int]]);
                    assert(proof_siblings(cur, idx as int) == seq![cur[sib as int]]
                        + proof_siblings(next_level(cur), idx as int / 2));
                    assert(hashes_view(siblings@) + proof_siblings(next_level(cur), idx as int / 2)
                        =~= hashes_view(old_s) + (seq![cur[sib as int]] + proof_siblings(next_level(cur), idx as int / 2)));
                }
            } else {
                proof {
                    assert(proof_siblings(cur, idx as int) =~= proof_siblings(next_level(cur), idx as int / 2));
                }
            }
            proof {
                assert(hashes_view(path@) =~= hashes_view(old_p) + seq![cur[idx as int]]);
                assert(hashes_view(path@) + path_hashes(next_level(cur), idx as int / 2)
                    =~= hashes_view(old_p) + (seq![cur[idx as int]] + path_hashes(next_level(cur), idx as int / 2)));
            }
            idx = idx / 2;
            k = k + 1;
        }
        proof {
            assert(lv[k as int].len() == 1);
            assert(hashes_view(siblings@) + proof_siblings(lv[k as int], idx as int) =~= hashes_view(siblings@));
            assert(hashes_view(path@) + path_hashes(lv[k as int], idx as int) =~= hashes_view(path@));
        }
        Ok(IntegrityProof { data_hash: leaf_hash, merkle_path: path, siblings, root_hash: root })
    }

    /// Whether a proof leads its leaf hash to this tree's root (32 zero bytes
    /// for the empty tree).
    pub fn verify_proof(&self, proof: &IntegrityProof) -> (r: bool)
        ensures
            r == (proof.root_hash@ == root_or_zero(self@) && fold_proof(
                proof.data_hash@,
                hashes_view(proof.siblings@),
            ) == proof.root_hash@),
    {
        let root = match self.root_hash() {
            Some(h) => h,
            None => {
                let z = [0u8; 32];
                assert(z@ =~= Seq::new(32, |i: int| 0u8));
                z
            },
        };
        if !hash_eq(&proof.root_hash, &root) {
            return false;
        }
        let ghost sibs = hashes_view(proof.siblings@);
        let mut cur = proof.data_hash;
        let mut i: usize = 0;
        assert(sibs.skip(0) =~= sibs);
        while i < proof.siblings.len()
            invariant
                sibs == hashes_view(proof.siblings@),
                i <= sibs.len(),
                fold_proof(proof.data_hash@, sibs) == fold_proof(cur@, sibs.skip(i as int)),
            decreases sibs.len() - i,
        {
            assert(sibs.skip(i as int).drop_first() =~= sibs.skip(i + 1));
            cur = hash_pair(&cur, &proof.siblings[i]);
            i = i + 1;
        }
        assert(sibs.skip(i as int) =~= Seq::<Seq<u8>>::empty());
        hash_eq(&cur, &root)
    }
}

/// Every leaf of a tree has a proof that leads it to the root: the siblings
/// `generate_proof` gives for its first position make `verify_proof` succeed.
pub proof fn merkle_proofs_verify(tree: MerkleTree, leaf: Seq<u8>)
    requires
        tree@.contains(leaf),
    ensures
        0 <= leaf_position(tree@, leaf) < tree@.len(),
        fold_proof(leaf, proof_siblings(tree@, leaf_position(tree@, leaf))) == merkle_root(tree@),
        root_or_zero(tree@) == merkle_root(tree@),
{
    let s = tree@;
    let w = choose|i: int| 0 <= i < s.len() && s[i] == leaf;
    lemma_first_position(s, leaf, w);
    let p = leaf_position(s, leaf);
    lemma_fold_reaches_root(s, p);
}

/// A value that occurs in a sequence has a first position.
proof fn lemma_first_position(s: Seq<Seq<u8>>, x: Seq<u8>, w: int)
    requires
        0 <= w < s.len(),
        s[w] == x,
    ensures
        0 <= leaf_position(s, x) < s.len(),
        s[leaf_position(s, x)] == x,
    decreases w,
{
    if forall|j: int| 0 <= j < w ==> s[j] != x {
    } else {
        let j = choose|j: int| 0 <= j < w && s[j] == x;
        lemma_first_position(s, x, j);
    }
}


/// Outcome of checking one block against its expected hash.
#[derive(Debug, Clone, PartialEq)]
pub enum VerificationResult {
    /// The data matches the expected hash.
    Valid,
    /// The data does not match: its actual hash differs from the expected one.
    Corrupted { expected: BlockHash, actual: BlockHash },
    /// The data is missing.
    Missing,
    /// The check could not be made.
    Error(String),
}

/// The BLAKE3 checksum of some data.
pub fn compute_checksum(data: &[u8]) -> (r: BlockHash)
    ensures
        r@ == blake3_digest(data@),
{
    blake3_hash(data)
}

/// Check data against its expected hash.
pub fn verify_data_integrity(data: &[u8], expected_hash: BlockHash) -> (r: VerificationResult)
    ensures
        match r {
            VerificationResult::Valid => blake3_digest(data@) == expected_hash@,
            VerificationResult::Corrupted { expected, actual } => {
                &&& blake3_digest(data@) != expected_hash@
                &&& expected == expected_hash
                &&& actual@ == blake3_digest(data@)
            },
            _ => false,
        },
{
    let actual = compute_checksum(data);
    if hash_eq(&actual, &expected_hash) {
        VerificationResult::Valid
    } else {
        VerificationResult::Corrupted { expected: expected_hash, actual }
    }
}

/// The (expected hash, data) views of a list of blocks.
pub open spec fn blocks_view(blocks: Seq<(BlockHash, &[u8])>) -> Seq<(Seq<u8>, Seq<u8>)> {
    blocks.map_values(|b: (BlockHash, &[u8])| (b.0@, b.1@))
}

/// Number of blocks whose data matches their expected hash.
pub open spec fn count_valid(s: Seq<(Seq<u8>, Seq<u8>)>) -> nat
    decreases s.len(),
{
    if s.len() == 0 {
        0
    } else {
        count_valid(s.drop_last()) + if blake3_digest(s.last().1) == s.last().0 {
            1nat
        } else {
            0nat
        }
    }
}

/// The failing blocks, in order: each expected hash with the actual hash of
/// the data.
pub open spec fn failed_blocks(s: Seq<(Seq<u8>, Seq<u8>)>) -> Seq<(Seq<u8>, Seq<u8>)>
    decreases s.len(),
{
    if s.len() == 0 {
        Seq::empty()
    } else if blake3_digest(s.last().1) == s.last().0 {
        failed_blocks(s.drop_last())
    } else {
        failed_blocks(s.drop_last()).push((s.last().0, blake3_digest(s.last().1)))
    }
}

pub proof fn lemma_failed_count(s: Seq<(Seq<u8>, Seq<u8>)>)
    ensures
        count_valid(s) + failed_blocks(s).len() == s.len(),
    decreases s.len(),
{
    if s.len() > 0 {
        lemma_failed_count(s.drop_last());
    }
}

/// Outcome of checking a batch of blocks.
#[derive(Debug)]
pub struct BatchVerificationResult {
    /// Blocks checked.
    pub total_checked: u64,
    /// Blocks that matched their hash.
    pub valid_blocks: u64,
    /// Blocks that did not.
    pub corrupted_blocks: u64,
    /// Blocks that were missing.
    pub missing_blocks: u64,
    /// Each failing block's expected hash with its result.
    pub failures: Vec<(BlockHash, VerificationResult)>,
    /// Time the check took.
    pub duration: std::time::Duration,
}

#[verifier::external_type_specification]
#[verifier::external_body]
pub struct ExInstant(std::time::Instant);

/// `std::time::Instant::now`: the current instant; nothing is claimed of it.
#[verifier::external_body]
fn instant_now() -> (r: std::time::Instant) {
    std::time::Instant::now()
}

/// `std::time::Instant::elapsed`: the time since `start`; nothing is claimed of it.
#[verifier::external_body]
fn elapsed_since(start: &std::time::Instant) -> (r: std::time::Duration) {
    start.elapsed()
}

/// The failures of a batch result, as (expected hash, actual hash) views;
/// `None` where a failure is not a hash mismatch.
pub open spec fn failures_view(f: Seq<(BlockHash, VerificationResult)>) -> Seq<(Seq<u8>, Seq<u8>)> {
    f.map_values(
        |x: (BlockHash, VerificationResult)|
            match x.1 {
                VerificationResult::Corrupted { expected, actual } => (expected@, actual@),
                _ => (x.0@, Seq::empty()),
            },
    )
}

/// Check each block against its expected hash, counting valid and corrupted
/// blocks and listing the failures in order.
pub fn batch_verify_integrity(data_blocks: &[(BlockHash, &[u8])]) -> (r: BatchVerificationResult)
    ensures
        r.total_checked == data_blocks@.len(),
        r.valid_blocks == count_valid(blocks_view(data_blocks@)),
        r.corrupted_blocks == failed_blocks(blocks_view(data_blocks@)).len(),
        r.missing_blocks == 0,
        failures_view(r.failures@) == failed_blocks(blocks_view(data_blocks@)),
        forall|j: int|
            0 <= j < r.failures@.len() ==> (#[trigger] r.failures@[j]).1 is Corrupted && r.failures@[j].0
                == r.failures@[j].1->expected,
{
    let start = instant_now();
    let ghost bv = blocks_view(data_blocks@);
    let mut valid: u64 = 0;
    let mut corrupted: u64 = 0;
    let mut failures: Vec<(BlockHash, VerificationResult)> = Vec::new();
    let mut i: usize = 0;
    while i < data_blocks.len()
        invariant
            bv == blocks_view(data_blocks@),
            i <= data_blocks@.len(),
            valid == count_valid(bv.take(i as int)),
            corrupted == failed_blocks(bv.take(i as int)).len(),
            failures_view(failures@) == failed_blocks(bv.take(i as int)),
            forall|j: int|
                0 <= j < failures@.len() ==> (#[trigger] failures@[j]).1 is Corrupted && failures@[j].0
                    == failures@[j].1->expected,
        decreases data_blocks@.len() - i,
    {
        let (expected_hash, data) = data_blocks[i];
        proof {
            assert(bv.take(i + 1).drop_last() =~= bv.take(i as int));
            assert(bv.take(i + 1).last() == (expected_hash@, data@));
            lemma_failed_count(bv.take(i as int));
        }
        let verification = verify_data_integrity(data, expected_hash);
        match verification {
            VerificationResult::Valid => {
                valid = valid + 1;
            },
            VerificationResult::Corrupted { expected, actual } => {
                corrupted = corrupted + 1;
                let ghost old_f = failures@;
                failures.push((expected_hash, VerificationResult::Corrupted { expected, actual }));
                proof {
                    assert(failures_view(failures@) =~= failures_view(old_f).push((expected@, actual@)));
                }
            },
            _ => {},
        }
        i = i + 1;
    }
    proof {
        assert(bv.take(i as int) =~= bv);
    }
    let duration = elapsed_since(&start);
    BatchVerificationResult {
        total_checked: data_blocks.len() as u64,
        valid_blocks: valid,
        corrupted_blocks: corrupted,
        missing_blocks: 0,
        failures,
        duration,
    }
}

/// Occurrences of a byte in a sequence.
pub open spec fn count_byte(s: Seq<u8>, b: u8) -> nat
    decreases s.len(),
{
    if s.len() == 0 {
        0
    } else {
        count_byte(s.drop_last(), b) + if s.last() == b {
            1nat
        } else {
            0nat
        }
    }
}

/// `b` is the byte a majority vote over `cands` picks: one of the most
/// frequent, and the smallest of those.
pub open spec fn is_vote(cands: Seq<u8>, b: u8) -> bool {
    &&& forall|c: u8| #[trigger] count_byte(cands, c) <= count_byte(cands, b)
    &&& forall|c: u8| c < b ==> #[trigger] count_byte(cands, c) < count_byte(cands, b)
}

/// The candidates for position `i`: the corrupted byte, then the byte of each
/// copy long enough to have one.
pub open spec fn column(corrupted: Seq<u8>, copies: Seq<Seq<u8>>, i: int) -> Seq<u8>
    decreases copies.len(),
{
    if copies.len() == 0 {
        seq![corrupted[i]]
    } else if i < copies.last().len() {
        column(corrupted, copies.drop_last(), i).push(copies.last()[i])
    } else {
        column(corrupted, copies.drop_last(), i)
    }
}

/// `r` is the byte-wise majority vote of the corrupted data and its copies.
pub open spec fn is_majority_repair(r: Seq<u8>, corrupted: Seq<u8>, copies: Seq<Seq<u8>>) -> bool {
    &&& r.len() == corrupted.len()
    &&& forall|i: int| 0 <= i < r.len() ==> is_vote(column(corrupted, copies, i), #[trigger] r[i])
}

/// The views of a list of byte slices.
pub open spec fn slices_view(s: Seq<&[u8]>) -> Seq<Seq<u8>> {
    s.map_values(|c: &[u8]| c@)
}

/// `j` is the first copy whose hash is the expected one.
pub open spec fn first_valid_copy(copies: Seq<Seq<u8>>, expected: Seq<u8>, j: int) -> bool {
    &&& 0 <= j < copies.len()
    &&& blake3_digest(copies[j]) == expected
    &&& forall|k: int| 0 <= k < j ==> blake3_digest(#[trigger] copies[k]) != expected
}

/// Occurrences of `b` in `s`.
fn count_in(s: &Vec<u8>, b: u8) -> (r: u64)
    ensures
        r == count_byte(s@, b),
{
    let mut n: u64 = 0;
    let mut j: usize = 0;
    while j < s.len()
        invariant
            j <= s@.len(),
            n == count_byte(s@.take(j as int), b),
            n <= j,
        decreases s@.len() - j,
    {
        assert(s@.take(j + 1).drop_last() =~= s@.take(j as int));
        if s[j] == b {
            n = n + 1;
        }
        j = j + 1;
    }
    assert(s@.take(j as int) =~= s@);
    n
}

/// The majority vote over some candidate bytes.
fn vote(cands: &Vec<u8>) -> (r: u8)
    ensures
        is_vote(cands@, r),
{
    let mut best: u8 = 0;
    let mut best_count = count_in(cands, 0);
    let mut b: u16 = 1;
    while b < 256
        invariant
            1 <= b <= 256,
            (best as int) < b,
            best_count == count_byte(cands@, best),
            forall|c: u8| (c as int) < b ==> #[trigger] count_byte(cands@, c) <= best_count,
            forall|c: u8| c < best ==> #[trigger] count_byte(cands@, c) < best_count,
        decreases 256 - b,
    {
        let c = count_in(cands, b as u8);
        if c > best_count {
            best = b as u8;
            best_count = c;
        }
        b = b + 1;
    }
    best
}

/// Repair a corrupted block: the first redundant copy that matches the
/// expected hash; else, with at least two copies, the byte-wise majority vote
/// of the corrupted data and the copies, if that matches; else an error.
pub fn repair_corrupted_block(
    corrupted_data: &[u8],
    redundant_copies: &[&[u8]],
    expected_hash: BlockHash,
) -> (r: Result<Vec<u8>, CASError>)
    ensures
        ({
            let copies = slices_view(redundant_copies@);
            let some_valid = exists|j: int| first_valid_copy(copies, expected_hash@, j);
            match r {
                Ok(v) => {
                    ||| exists|j: int| first_valid_copy(copies, expected_hash@, j) && v@ == copies[j]
                    ||| {
                        &&& !some_valid
                        &&& copies.len() >= 2
                        &&& is_majority_repair(v@, corrupted_data@, copies)
                        &&& blake3_digest(v@) == expected_hash@
                    }
                },
                Err(e) => {
                    &&& e is Corruption
                    &&& !some_valid
                    &&& (copies.len() < 2 || forall|v: Seq<u8>|
                        is_majority_repair(v, corrupted_data@, copies) ==> blake3_digest(v)
                            != expected_hash@)
                },
            }
        }),
{
    let ghost copies = slices_view(redundant_copies@);
    let mut j: usize = 0;
    while j < redundant_copies.len()
        invariant
            copies == slices_view(redundant_copies@),
            j <= copies.len(),
            forall|k: int| 0 <= k < j ==> blake3_digest(#[trigger] copies[k]) != expected_hash@,
        decreases copies.len() - j,
    {
        let copy = redundant_copies[j];
        let h = compute_checksum(copy);
        if hash_eq(&h, &expected_hash) {
            proof {
                assert(first_valid_copy(copies, expected_hash@, j as int));
            }
            return Ok(vstd::slice::slice_to_vec(copy));
        }
        j = j + 1;
    }
    proof {
        assert forall|j: int| !first_valid_copy(copies, expected_hash@, j) by {
            if 0 <= j < copies.len() {
                assert(blake3_digest(copies[j]) != expected_hash@);
            }
        }
    }
    if redundant_copies.len() >= 2 {
        let mut repaired: Vec<u8> = Vec::new();
        let mut i: usize = 0;
        while i < corrupted_data.len()
            invariant
                copies == slices_view(redundant_copies@),
                i <= corrupted_data@.len(),
                repaired@.len() == i,
                forall|p: int| 0 <= p < i ==> is_vote(column(corrupted_data@, copies, p), #[trigger] repaired@[p]),
            decreases corrupted_data@.len() - i,
        {
            let mut cands: Vec<u8> = Vec::new();
            cands.push(corrupted_data[i]);
            let mut k: usize = 0;
            while k < redundant_copies.len()
                invariant
                    copies == slices_view(redundant_copies@),
                    i < corrupted_data@.len(),
                    k <= copies.len(),
                    cands@ == column(corrupted_data@, copies.take(k as int), i as int),
                decreases copies.len() - k,
            {
                let copy = redundant_copies[k];
                proof {
                    assert(copies.take(k + 1).drop_last() =~= copies.take(k as int));
                    assert(copies.take(k + 1).last() == copy@);
                }
                if i < copy.len() {
                    cands.push(copy[i]);
                }
                k = k + 1;
            }
            proof {
                assert(copies.take(k as int) =~= copies);
            }
            let b = vote(&cands);
            repaired.push(b);
            i = i + 1;
        }
        let h = compute_checksum(repaired.as_slice());
        proof {
            assert(is_majority_repair(repaired@, corrupted_data@, copies));
        }
        if hash_eq(&h, &expected_hash) {
            return Ok(repaired);
        }
        proof {
            assert forall|v: Seq<u8>|
                is_majority_repair(v, corrupted_data@, copies) implies blake3_digest(v)
                != expected_hash@ by {
                lemma_repair_unique(v, repaired@, corrupted_data@, copies);
            }
        }
    }
    Err(CASError::Corruption { details: "Unable to repair corrupted data".to_string() })
}

/// The vote over a sequence of candidates is unique.
pub proof fn lemma_vote_unique(cands: Seq<u8>, a: u8, b: u8)
    requires
        is_vote(cands, a),
        is_vote(cands, b),
    ensures
        a == b,
{
    assert(count_byte(cands, a) <= count_byte(cands, b));
    assert(count_byte(cands, b) <= count_byte(cands, a));
    if a < b {
        assert(count_byte(cands, a) < count_byte(cands, b));
    } else if b < a {
        assert(count_byte(cands, b) < count_byte(cands, a));
    }
}

/// The majority repair of a block is unique.
pub proof fn lemma_repair_unique(v: Seq<u8>, w: Seq<u8>, corrupted: Seq<u8>, copies: Seq<Seq<u8>>)
    requires
        is_majority_repair(v, corrupted, copies),
        is_majority_repair(w, corrupted, copies),
    ensures
        v == w,
{
    assert forall|i: int| 0 <= i < v.len() implies v[i] == w[i] by {
        lemma_vote_unique(column(corrupted, copies, i), v[i], w[i]);
    }
    assert(v =~= w);
}

/// Counts of verification results by kind.
#[derive(Debug, Clone, Copy, PartialEq, Eq, Structural)]
pub struct IntegrityStatistics {
    pub total_blocks: u64,
    pub valid_blocks: u64,
    pub corrupted_blocks: u64,
    pub missing_blocks: u64,
    pub error_blocks: u64,
}

/// Number of results of each kind: valid, corrupted, missing, error.
pub open spec fn count_kinds(s: Seq<VerificationResult>) -> (nat, nat, nat, nat)
    decreases s.len(),
{
    if s.len() == 0 {
        (0, 0, 0, 0)
    } else {
        let c = count_kinds(s.drop_last());
        match s.last() {
            VerificationResult::Valid => ((c.0 + 1) as nat, c.1, c.2, c.3),
            VerificationResult::Corrupted { .. } => (c.0, (c.1 + 1) as nat, c.2, c.3),
            VerificationResult::Missing => (c.0, c.1, (c.2 + 1) as nat, c.3),
            VerificationResult::Error(_) => (c.0, c.1, c.2, (c.3 + 1) as nat),
        }
    }
}

pub proof fn lemma_count_kinds_sum(s: Seq<VerificationResult>)
    ensures
        count_kinds(s).0 + count_kinds(s).1 + count_kinds(s).2 + count_kinds(s).3 == s.len(),
    decreases s.len(),
{
    if s.len() > 0 {
        lemma_count_kinds_sum(s.drop_last());
    }
}

/// Count the results of each kind.
pub fn calculate_integrity_statistics(verification_results: &[VerificationResult]) -> (r:
    IntegrityStatistics)
    ensures
        r.total_blocks == verification_results@.len(),
        r.valid_blocks == count_kinds(verification_results@).0,
        r.corrupted_blocks == count_kinds(verification_results@).1,
        r.missing_blocks == count_kinds(verification_results@).2,
        r.error_blocks == count_kinds(verification_results@).3,
{
    let ghost s = verification_results@;
    let mut st = IntegrityStatistics {
        total_blocks: verification_results.len() as u64,
        valid_blocks: 0,
        corrupted_blocks: 0,
        missing_blocks: 0,
        error_blocks: 0,
    };
    let mut i: usize = 0;
    while i < verification_results.len()
        invariant
            s == verification_results@,
            i <= s.len(),
            st.total_blocks == s.len(),
            (st.valid_blocks as nat, st.corrupted_blocks as nat, st.missing_blocks as nat, st.error_blocks as nat)
                == count_kinds(s.take(i as int)),
        decreases s.len() - i,
    {
        proof {
            assert(s.take(i + 1).drop_last() =~= s.take(i as int));
            lemma_count_kinds_sum(s.take(i as int));
        }
        match &verification_results[i] {
            VerificationResult::Valid => st.valid_blocks = st.valid_blocks + 1,
            VerificationResult::Corrupted { .. } => st.corrupted_blocks = st.corrupted_blocks + 1,
            VerificationResult::Missing => st.missing_blocks = st.missing_blocks + 1,
            VerificationResult::Error(_) => st.error_blocks = st.error_blocks + 1,
        }
        i = i + 1;
    }
    proof {
        assert(s.take(i as int) =~= s);
    }
    st
}

} // verus!
