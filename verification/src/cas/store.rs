//! The block store: content is kept under the BLAKE3 digest of its bytes and
//! stored once however often it is written (a reference count records the
//! writes); it is compressed with Zstandard where the configuration asks, and
//! checked against a checksum of the stored bytes when it is read back.
use crate::cas::compression::{compress_zstd, decompress_zstd, zstd_compressed, zstd_decompressed};
use crate::cas::integrity::{blake3_digest, compute_checksum, hash_eq, BlockHash};
use crate::cas::{CASError, CASResult};
use crate::crdt::PhysicalTimestamp;
use crate::text::{hex_string, hex_text};
use vstd::prelude::*;

verus! {

broadcast use vstd::array::group_array_axioms;

/// How the store treats blocks.
#[derive(Debug, Clone, Copy, PartialEq, Eq, Structural)]
pub struct CASConfig {
    /// Block size for content chunking, in bytes.
    pub block_size: usize,
    /// Whether blocks are compressed with Zstandard.
    pub compression_enabled: bool,
    /// The Zstandard level.
    pub compression_level: i32,
    /// Whether blocks are marked for AES-256-GCM encryption.
    pub encryption_enabled: bool,
    /// Largest size of the in-memory index, in bytes.
    pub max_cache_size: usize,
    /// Whether a checksum of the stored bytes is kept and checked on reads.
    pub integrity_verification: bool,
    /// Fill level, in percent, at which garbage collection is due.
    pub gc_threshold_percent: u64,
}

/// The default configuration: 4 KiB blocks, Zstandard at level 6, no
/// encryption, a 512 MiB index, checksums kept, collection due at 90%.
pub open spec fn default_config() -> CASConfig {
    CASConfig {
        block_size: 4096,
        compression_enabled: true,
        compression_level: 6,
        encryption_enabled: false,
        max_cache_size: 536870912,
        integrity_verification: true,
        gc_threshold_percent: 90,
    }
}

impl Default for CASConfig {
    fn default() -> (r: CASConfig)
        ensures
            r == default_config(),
    {
        CASConfig {
            block_size: 4096,
            compression_enabled: true,
            compression_level: 6,
            encryption_enabled: false,
            max_cache_size: 536870912,
            integrity_verification: true,
            gc_threshold_percent: 90,
        }
    }
}

/// Compression a block is stored with.
#[derive(Debug, Clone, Copy, PartialEq, Eq, Structural)]
pub enum CompressionType {
    Zstd { level: i32 },
    Lz4,
    /// Stored as is.
    Uncompressed,
}

/// Encryption a block is marked with.
#[derive(Debug, Clone, Copy, PartialEq, Eq, Structural)]
pub enum EncryptionType {
    Aes256Gcm,
    ChaCha20Poly1305,
    /// Stored in the clear.
    Unencrypted,
}

/// What the store records of a block.
#[derive(Debug)]
pub struct BlockMetadata {
    /// Lowercase hexadecimal text of the content's BLAKE3 digest.
    pub hash: String,
    /// Size of the content.
    pub original_size: u64,
    /// Size of the bytes stored.
    pub stored_size: u64,
    /// Compression of the stored bytes, if any.
    pub compression: Option<CompressionType>,
    /// Encryption of the stored bytes, if any.
    pub encryption: Option<EncryptionType>,
    /// When the block was first stored.
    pub created_at: PhysicalTimestamp,
    /// When the block was last written or read.
    pub last_accessed: PhysicalTimestamp,
    /// How many writes the block has had.
    pub ref_count: u64,
    /// Lowercase hexadecimal BLAKE3 digest of the stored bytes, if kept.
    pub checksum: Option<String>,
}

/// A block as the store holds it: the content's digest, the metadata and
/// the stored bytes.
#[derive(Debug)]
pub struct StoredBlock {
    pub key: BlockHash,
    pub metadata: BlockMetadata,
    pub data: Vec<u8>,
}

/// Counters of the store's work.
#[derive(Debug, Clone, Copy, PartialEq, Eq, Structural)]
pub struct CASStatistics {
    /// Blocks stored.
    pub total_blocks: u64,
    /// Bytes stored, once per block.
    pub total_stored_bytes: u64,
    /// Bytes not stored again because their block was already there.
    pub dedup_saved_bytes: u64,
    /// Bytes saved by compression.
    pub compression_saved_bytes: u64,
    /// Successful reads.
    pub read_operations: u64,
    /// Writes.
    pub write_operations: u64,
    /// Reads of a hash that is stored.
    pub cache_hits: u64,
    /// Reads of a hash that is not stored.
    pub cache_misses: u64,
    /// Integrity checks that found a block corrupted.
    pub integrity_failures: u64,
}

/// Counters that are all zero.
pub open spec fn zero_statistics() -> CASStatistics {
    CASStatistics {
        total_blocks: 0,
        total_stored_bytes: 0,
        dedup_saved_bytes: 0,
        compression_saved_bytes: 0,
        read_operations: 0,
        write_operations: 0,
        cache_hits: 0,
        cache_misses: 0,
        integrity_failures: 0,
    }
}

impl Default for CASStatistics {
    fn default() -> (r: CASStatistics)
        ensures
            r == zero_statistics(),
    {
        CASStatistics {
            total_blocks: 0,
            total_stored_bytes: 0,
            dedup_saved_bytes: 0,
            compression_saved_bytes: 0,
            read_operations: 0,
            write_operations: 0,
            cache_hits: 0,
            cache_misses: 0,
            integrity_failures: 0,
        }
    }
}

/// The outcome of storing content.
#[derive(Debug, Clone, Copy, PartialEq, Eq)]
pub struct StoreResult {
    /// BLAKE3 digest of the content.
    pub hash: BlockHash,
    /// Whether a new block was stored (else the content was already there).
    pub is_new: bool,
    /// Size of the content.
    pub original_size: u64,
    /// Size of the bytes stored for it.
    pub stored_size: u64,
}

/// The bytes content is stored as: its Zstandard frame where compression is
/// on (`None` where compression fails), else the content itself.
pub open spec fn processed(cfg: CASConfig, content: Seq<u8>) -> Option<Seq<u8>> {
    if cfg.compression_enabled {
        zstd_compressed(content, cfg.compression_level)
    } else {
        Some(content)
    }
}

/// What a block's stored bytes give back, by its metadata; `None` where they
/// do not decompress.
pub open spec fn decoded(b: StoredBlock) -> Option<Seq<u8>> {
    match b.metadata.compression {
        Some(CompressionType::Zstd { .. }) => zstd_decompressed(
            b.data@,
            b.metadata.original_size as usize,
        ),
        _ => Some(b.data@),
    }
}

/// Whether a block's stored bytes match its checksum, where it keeps one.
pub open spec fn checksum_matches(b: StoredBlock) -> bool {
    match b.metadata.checksum {
        Some(c) => c@ == hex_text(blake3_digest(b.data@)),
        None => true,
    }
}

/// Whether a block is sound: its bytes match its checksum and give back
/// content whose digest is the block's key.
pub open spec fn sound(b: StoredBlock) -> bool {
    &&& checksum_matches(b)
    &&& decoded(b) matches Some(c) && blake3_digest(c) == b.key@
}

/// Whether some block is stored under a key.
pub open spec fn has_key(s: Seq<StoredBlock>, k: Seq<u8>) -> bool {
    exists|i: int| 0 <= i < s.len() && s[i].key@ == k
}

/// The position of the block stored under a key.
pub open spec fn key_index(s: Seq<StoredBlock>, k: Seq<u8>) -> int {
    choose|i: int| 0 <= i < s.len() && s[i].key@ == k
}

/// Whether no two blocks share a key.
pub open spec fn distinct_keys(s: Seq<StoredBlock>) -> bool {
    forall|i: int, j: int| 0 <= i < j < s.len() ==> #[trigger] s[i].key@ != #[trigger] s[j].key@
}

/// The content a read of a key gives back, `None` where the read fails.
pub open spec fn read_back(cfg: CASConfig, s: Seq<StoredBlock>, k: Seq<u8>) -> Option<Seq<u8>> {
    if !has_key(s, k) {
        None
    } else {
        let b = s[key_index(s, k)];
        if cfg.integrity_verification && !checksum_matches(b) {
            None
        } else {
            decoded(b)
        }
    }
}

/// Whether a block is the one the store makes of new content at a time.
pub open spec fn is_new_block(
    b: StoredBlock,
    cfg: CASConfig,
    content: Seq<u8>,
    now: PhysicalTimestamp,
) -> bool {
    &&& b.key@ == blake3_digest(content)
    &&& processed(cfg, content) == Some(b.data@)
    &&& b.metadata.hash@ == hex_text(b.key@)
    &&& b.metadata.original_size == content.len()
    &&& b.metadata.stored_size == b.data@.len()
    &&& b.metadata.compression == (if cfg.compression_enabled {
        Some(CompressionType::Zstd { level: cfg.compression_level })
    } else {
        None
    })
    &&& b.metadata.encryption == (if cfg.encryption_enabled {
        Some(EncryptionType::Aes256Gcm)
    } else {
        None
    })
    &&& b.metadata.created_at == now
    &&& b.metadata.last_accessed == now
    &&& b.metadata.ref_count == 1
    &&& match b.metadata.checksum {
        Some(c) => cfg.integrity_verification && c@ == hex_text(blake3_digest(b.data@)),
        None => !cfg.integrity_verification,
    }
}

/// A block after one more write of its content at a time.
pub open spec fn touched(b: StoredBlock, now: PhysicalTimestamp) -> StoredBlock {
    StoredBlock {
        metadata: BlockMetadata {
            ref_count: b.metadata.ref_count.saturating_add(1),
            last_accessed: now,
            ..b.metadata
        },
        ..b
    }
}

/// A block after a read at a time.
pub open spec fn accessed(b: StoredBlock, now: PhysicalTimestamp) -> StoredBlock {
    StoredBlock { metadata: BlockMetadata { last_accessed: now, ..b.metadata }, ..b }
}

/// What storing content does: the blocks and counters before and after, and
/// the result.
pub open spec fn store_effect(
    cfg: CASConfig,
    s0: Seq<StoredBlock>,
    st0: CASStatistics,
    content: Seq<u8>,
    now: PhysicalTimestamp,
    s1: Seq<StoredBlock>,
    st1: CASStatistics,
    r: CASResult<StoreResult>,
) -> bool {
    let k = blake3_digest(content);
    match r {
        Ok(res) => {
            &&& res.hash@ == k
            &&& res.original_size == content.len()
            &&& res.is_new == !has_key(s0, k)
            &&& if res.is_new {
                &&& s1.len() == s0.len() + 1
                &&& s1.drop_last() == s0
                &&& is_new_block(s1.last(), cfg, content, now)
                &&& res.stored_size == s1.last().metadata.stored_size
                &&& st1 == (CASStatistics {
                    total_blocks: st0.total_blocks.saturating_add(1),
                    total_stored_bytes: st0.total_stored_bytes.saturating_add(res.stored_size),
                    write_operations: st0.write_operations.saturating_add(1),
                    compression_saved_bytes: if cfg.compression_enabled {
                        st0.compression_saved_bytes.saturating_add(
                            res.original_size.saturating_sub(res.stored_size),
                        )
                    } else {
                        st0.compression_saved_bytes
                    },
                    ..st0
                })
            } else {
                let i = key_index(s0, k);
                &&& s1 == s0.update(i, touched(s0[i], now))
                &&& res.stored_size == s0[i].metadata.stored_size
                &&& st1 == (CASStatistics {
                    dedup_saved_bytes: st0.dedup_saved_bytes.saturating_add(res.original_size),
                    write_operations: st0.write_operations.saturating_add(1),
                    ..st0
                })
            }
        },
        Err(e) => {
            &&& !has_key(s0, k)
            &&& cfg.compression_enabled
            &&& zstd_compressed(content, cfg.compression_level) is None
            &&& e is Compression
            &&& s1 == s0
            &&& st1 == st0
        },
    }
}

/// What reading a key does: the blocks and counters before and after, and
/// the result.
pub open spec fn retrieve_effect(
    cfg: CASConfig,
    s0: Seq<StoredBlock>,
    st0: CASStatistics,
    k: Seq<u8>,
    now: PhysicalTimestamp,
    s1: Seq<StoredBlock>,
    st1: CASStatistics,
    r: CASResult<Vec<u8>>,
) -> bool {
    if !has_key(s0, k) {
        &&& r matches Err(CASError::BlockNotFound { hash }) && hash@ == hex_text(k)
        &&& s1 == s0
        &&& st1 == (CASStatistics { cache_misses: st0.cache_misses.saturating_add(1), ..st0 })
    } else {
        let i = key_index(s0, k);
        let b = s0[i];
        let hit = CASStatistics { cache_hits: st0.cache_hits.saturating_add(1), ..st0 };
        if cfg.integrity_verification && !checksum_matches(b) {
            &&& r matches Err(CASError::IntegrityCheckFailed { expected, actual }) && b.metadata.checksum
                == Some(expected) && actual@ == hex_text(blake3_digest(b.data@))
            &&& s1 == s0
            &&& st1 == hit
        } else {
            match decoded(b) {
                Some(c) => {
                    &&& r matches Ok(v) && v@ == c
                    &&& s1 == s0.update(i, accessed(b, now))
                    &&& st1 == (CASStatistics {
                        read_operations: hit.read_operations.saturating_add(1),
                        ..hit
                    })
                },
                None => {
                    &&& r matches Err(e) && e is Compression
                    &&& s1 == s0
                    &&& st1 == hit
                },
            }
        }
    }
}

/// The blocks garbage collection keeps: those with a reference, in order.
pub open spec fn kept_blocks(s: Seq<StoredBlock>) -> Seq<StoredBlock>
    decreases s.len(),
{
    if s.len() == 0 {
        s
    } else {
        let rest = kept_blocks(s.drop_last());
        if s.last().metadata.ref_count != 0 {
            rest.push(s.last())
        } else {
            rest
        }
    }
}

/// The counters after garbage collection removed the unreferenced blocks of
/// `s`, and the bytes reclaimed, counted from `st` and `reclaimed`.
pub open spec fn gc_totals(s: Seq<StoredBlock>, st: CASStatistics, reclaimed: u64) -> (
    CASStatistics,
    u64,
)
    decreases s.len(),
{
    if s.len() == 0 {
        (st, reclaimed)
    } else {
        let (st2, r2) = gc_totals(s.drop_last(), st, reclaimed);
        let b = s.last();
        if b.metadata.ref_count == 0 {
            (
                CASStatistics {
                    total_blocks: st2.total_blocks.saturating_sub(1),
                    total_stored_bytes: st2.total_stored_bytes.saturating_sub(
                        b.metadata.stored_size,
                    ),
                    ..st2
                },
                r2.saturating_add(b.metadata.stored_size),
            )
        } else {
            (st2, r2)
        }
    }
}

/// Garbage collection removes exactly the unreferenced blocks: every block
/// with a non-zero reference count is kept, and every kept block is one of
/// the blocks given, with a non-zero reference count.
pub proof fn gc_keeps_referenced_blocks(s: Seq<StoredBlock>)
    ensures
        forall|i: int|
            0 <= i < s.len() && s[i].metadata.ref_count != 0 ==> #[trigger] kept_blocks(s).contains(s[i]),
        forall|b: StoredBlock|
            #[trigger] kept_blocks(s).contains(b) ==> s.contains(b) && b.metadata.ref_count != 0,
    decreases s.len(),
{
    if s.len() > 0 {
        let p = s.drop_last();
        gc_keeps_referenced_blocks(p);
        let rest = kept_blocks(p);
        let k = kept_blocks(s);
        assert forall|i: int| 0 <= i < s.len() && s[i].metadata.ref_count != 0 implies #[trigger] k.contains(s[i]) by {
            if i < s.len() - 1 {
                assert(p[i] == s[i]);
                assert(rest.contains(p[i]));
                let j = choose|j: int| 0 <= j < rest.len() && rest[j] == p[i];
                if s.last().metadata.ref_count != 0 {
                    assert(k[j] == rest[j]);
                } else {
                    assert(k == rest);
                }
            } else {
                assert(s[i] == s.last());
                assert(k[k.len() - 1] == s.last());
            }
        }
        assert forall|b: StoredBlock| #[trigger] k.contains(b) implies s.contains(b) && b.metadata.ref_count != 0 by {
            let j = choose|j: int| 0 <= j < k.len() && k[j] == b;
            if j < rest.len() {
                assert(rest[j] == b);
                assert(rest.contains(b));
                let i = choose|i: int| 0 <= i < p.len() && p[i] == b;
                assert(s[i] == b);
            } else {
                assert(b == s.last());
                assert(s[s.len() - 1] == b);
            }
        }
    }
}

/// Where every block is referenced, garbage collection changes nothing:
/// all blocks are kept, no byte is reclaimed and no counter changes.
pub proof fn gc_of_referenced_blocks_changes_nothing(s: Seq<StoredBlock>, st: CASStatistics, reclaimed: u64)
    requires
        forall|i: int| 0 <= i < s.len() ==> #[trigger] s[i].metadata.ref_count != 0,
    ensures
        kept_blocks(s) == s,
        gc_totals(s, st, reclaimed) == (st, reclaimed),
    decreases s.len(),
{
    if s.len() > 0 {
        let p = s.drop_last();
        assert forall|i: int| 0 <= i < p.len() implies #[trigger] p[i].metadata.ref_count != 0 by {
            assert(p[i] == s[i]);
        }
        gc_of_referenced_blocks_changes_nothing(p, st, reclaimed);
        assert(s.last().metadata.ref_count != 0);
        assert(p.push(s.last()) =~= s);
    }
}

/// Each block garbage collection keeps is one of the blocks it was given.
proof fn lemma_kept_from(s: Seq<StoredBlock>)
    ensures
        forall|a: int|
            0 <= a < kept_blocks(s).len() ==> exists|j: int|
                0 <= j < s.len() && #[trigger] kept_blocks(s)[a] == s[j],
    decreases s.len(),
{
    if s.len() > 0 {
        lemma_kept_from(s.drop_last());
        let rest = kept_blocks(s.drop_last());
        assert forall|a: int| 0 <= a < kept_blocks(s).len() implies exists|j: int|
            0 <= j < s.len() && #[trigger] kept_blocks(s)[a] == s[j] by {
            if a < rest.len() {
                let j = choose|j: int| 0 <= j < s.drop_last().len() && rest[a] == s.drop_last()[j];
                assert(kept_blocks(s)[a] == s[j]);
            } else {
                assert(kept_blocks(s)[a] == s[s.len() - 1]);
            }
        }
    }
}

/// Garbage collection keeps keys distinct and blocks sound.
proof fn lemma_kept_well_formed(s: Seq<StoredBlock>)
    requires
        distinct_keys(s),
        forall|i: int| 0 <= i < s.len() ==> #[trigger] sound(s[i]),
    ensures
        distinct_keys(kept_blocks(s)),
        forall|i: int| 0 <= i < kept_blocks(s).len() ==> #[trigger] sound(kept_blocks(s)[i]),
    decreases s.len(),
{
    if s.len() > 0 {
        let t = s.drop_last();
        assert forall|i: int, j: int| 0 <= i < j < t.len() implies #[trigger] t[i].key@ != #[trigger] t[j].key@ by {
            assert(s[i] == t[i] && s[j] == t[j]);
        }
        assert forall|i: int| 0 <= i < t.len() implies #[trigger] sound(t[i]) by {
            assert(s[i] == t[i]);
        }
        lemma_kept_well_formed(t);
        lemma_kept_from(t);
        lemma_kept_from(s);
        let rest = kept_blocks(t);
        let k = kept_blocks(s);
        assert forall|a: int, b: int| 0 <= a < b < k.len() implies #[trigger] k[a].key@ != #[trigger] k[b].key@ by {
            if b < rest.len() {
                assert(k[a] == rest[a] && k[b] == rest[b]);
            } else {
                let j = choose|j: int| 0 <= j < t.len() && #[trigger] rest[a] == t[j];
                assert(k[a] == s[j]);
                assert(k[b] == s[s.len() - 1]);
            }
        }
        assert forall|a: int| 0 <= a < k.len() implies #[trigger] sound(k[a]) by {
            let j = choose|j: int| 0 <= j < s.len() && #[trigger] k[a] == s[j];
        }
    }
}

/// Content is stored once: after content has been stored, storing it again
/// (at any time, with the same configuration) gives the same hash, makes no
/// new block and leaves the number of blocks unchanged.
pub proof fn store_deduplicates(
    cfg: CASConfig,
    s0: Seq<StoredBlock>,
    st0: CASStatistics,
    content: Seq<u8>,
    now1: PhysicalTimestamp,
    s1: Seq<StoredBlock>,
    st1: CASStatistics,
    r1: CASResult<StoreResult>,
    now2: PhysicalTimestamp,
    s2: Seq<StoredBlock>,
    st2: CASStatistics,
    r2: CASResult<StoreResult>,
)
    requires
        store_effect(cfg, s0, st0, content, now1, s1, st1, r1),
        store_effect(cfg, s1, st1, content, now2, s2, st2, r2),
        r1 is Ok,
    ensures
        r2 matches Ok(res2) && !res2.is_new && res2.hash == r1->Ok_0.hash,
        s2.len() == s1.len(),
{
    let k = blake3_digest(content);
    let res1 = r1->Ok_0;
    if res1.is_new {
        assert(s1[s1.len() - 1].key@ == k);
        assert(has_key(s1, k));
    } else {
        let i = key_index(s0, k);
        assert(s1[i].key@ == s0[i].key@);
        assert(has_key(s1, k));
    }
    let res2 = r2->Ok_0;
    assert(res2.hash@ == res1.hash@);
    assert(res2.hash =~= res1.hash);
}

/// The block store. It holds its blocks and index in memory only: nothing
/// is persisted, so a store starts empty and its blocks last as long as it
/// does (there is no on-disk database behind it).
pub struct ContentAddressableStorage {
    config: CASConfig,
    blocks: Vec<StoredBlock>,
    stats: CASStatistics,
}

impl ContentAddressableStorage {
    /// The stored blocks, in the order they were first stored.
    pub closed spec fn entries(&self) -> Seq<StoredBlock> {
        self.blocks@
    }

    /// The configuration.
    pub closed spec fn cfg(&self) -> CASConfig {
        self.config
    }

    /// The counters.
    pub closed spec fn counters(&self) -> CASStatistics {
        self.stats
    }

    #[verifier::type_invariant]
    closed spec fn well_formed(&self) -> bool {
        &&& distinct_keys(self.blocks@)
        &&& forall|i: int| 0 <= i < self.blocks@.len() ==> #[trigger] sound(self.blocks@[i])
    }

    /// An empty store with the default configuration.
    pub fn new() -> (r: ContentAddressableStorage)
        ensures
            r.entries() == Seq::<StoredBlock>::empty(),
            r.cfg() == default_config(),
            r.counters() == zero_statistics(),
    {
        Self::with_config(CASConfig::default())
    }

    /// An empty store with a configuration.
    pub fn with_config(config: CASConfig) -> (r: ContentAddressableStorage)
        ensures
            r.entries() == Seq::<StoredBlock>::empty(),
            r.cfg() == config,
            r.counters() == zero_statistics(),
    {
        ContentAddressableStorage { config, blocks: Vec::new(), stats: CASStatistics::default() }
    }

    /// The position of the block stored under a key, if any.
    fn position(&self, key: &BlockHash) -> (r: Option<usize>)
        ensures
            match r {
                Some(i) => i < self.blocks@.len() && self.blocks@[i as int].key@ == key@,
                None => !has_key(self.blocks@, key@),
            },
    {
        let mut i: usize = 0;
        while i < self.blocks.len()
            invariant
                i <= self.blocks@.len(),
                forall|j: int| 0 <= j < i ==> self.blocks@[j].key@ != key@,
            decreases self.blocks@.len() - i,
        {
            if hash_eq(&self.blocks[i].key, key) {
                return Some(i);
            }
            i = i + 1;
        }
        None
    }

    proof fn lemma_key_index(s: Seq<StoredBlock>, i: int, k: Seq<u8>)
        requires
            distinct_keys(s),
            0 <= i < s.len(),
            s[i].key@ == k,
        ensures
            has_key(s, k),
            key_index(s, k) == i,
    {
        assert(has_key(s, k));
        let w = key_index(s, k);
        if w != i {
            if w < i {
                assert(s[w].key@ != s[i].key@);
            } else {
                assert(s[i].key@ != s[w].key@);
            }
        }
    }

    /// Replace the block at a position by one with the same key that is
    /// sound.
    fn replace_block(&mut self, i: usize, b: StoredBlock)
        requires
            i < old(self).entries().len(),
            b.key@ == old(self).entries()[i as int].key@,
            sound(b),
        ensures
            final(self).entries() == old(self).entries().update(i as int, b),
            final(self).cfg() == old(self).cfg(),
            final(self).counters() == old(self).counters(),
    {
        proof {
            use_type_invariant(&*self);
        }
        let ghost before = self.blocks@;
        let mut blocks = Vec::new();
        std::mem::swap(&mut blocks, &mut self.blocks);
        blocks.set(i, b);
        proof {
            assert forall|x: int, y: int| 0 <= x < y < blocks@.len() implies #[trigger] blocks@[x].key@
                != #[trigger] blocks@[y].key@ by {
                assert(before[x].key@ == blocks@[x].key@);
                assert(before[y].key@ == blocks@[y].key@);
            }
            assert forall|x: int| 0 <= x < blocks@.len() implies #[trigger] sound(blocks@[x]) by {
                if x != i {
                    assert(blocks@[x] == before[x]);
                }
            }
        }
        self.blocks = blocks;
    }

    /// Store content, reading the clock for its timestamps. The content is
    /// kept under its BLAKE3 digest; where that digest is already stored the
    /// block is not stored again but gains a reference.
    pub fn store(&mut self, content: &[u8]) -> (r: CASResult<StoreResult>)
        ensures
            exists|now: PhysicalTimestamp|
                store_effect(
                    old(self).cfg(),
                    old(self).entries(),
                    old(self).counters(),
                    content@,
                    now,
                    final(self).entries(),
                    final(self).counters(),
                    r,
                ),
            final(self).cfg() == old(self).cfg(),
            r matches Ok(res) ==> (read_back(final(self).cfg(), final(self).entries(), res.hash@) matches Some(
                c,
            ) && blake3_digest(c) == res.hash@ && (res.is_new ==> c == content@)),
    {
        let now = PhysicalTimestamp::now();
        self.store_at(content, now)
    }

    /// Store content at a given time. A read of the digest afterwards gives
    /// content with that digest: the content itself where the block is new.
    pub fn store_at(&mut self, content: &[u8], now: PhysicalTimestamp) -> (r: CASResult<StoreResult>)
        ensures
            store_effect(
                old(self).cfg(),
                old(self).entries(),
                old(self).counters(),
                content@,
                now,
                final(self).entries(),
                final(self).counters(),
                r,
            ),
            final(self).cfg() == old(self).cfg(),
            r matches Ok(res) ==> (read_back(final(self).cfg(), final(self).entries(), res.hash@) matches Some(
                c,
            ) && blake3_digest(c) == res.hash@ && (res.is_new ==> c == content@)),
    {
        proof {
            use_type_invariant(&*self);
        }
        let hash = compute_checksum(content);
        let ghost s0 = self.blocks@;
        let ghost st0 = self.stats;
        match self.position(&hash) {
            Some(i) => {
                proof {
                    Self::lemma_key_index(s0, i as int, hash@);
                }
                let mut blocks = Vec::new();
                std::mem::swap(&mut blocks, &mut self.blocks);
                let b = blocks.remove(i);
                let stored_size = b.metadata.stored_size;
                let nb = StoredBlock {
                    key: b.key,
                    metadata: BlockMetadata {
                        ref_count: b.metadata.ref_count.saturating_add(1),
                        last_accessed: now,
                        ..b.metadata
                    },
                    data: b.data,
                };
                assert(nb == touched(s0[i as int], now));
                assert(sound(s0[i as int]));
                blocks.insert(i, nb);
                proof {
                    assert(blocks@ =~= s0.update(i as int, touched(s0[i as int], now)));
                    assert forall|x: int, y: int| 0 <= x < y < blocks@.len() implies #[trigger] blocks@[x].key@
                        != #[trigger] blocks@[y].key@ by {
                        assert(s0[x].key@ == blocks@[x].key@);
                        assert(s0[y].key@ == blocks@[y].key@);
                    }
                    assert forall|x: int| 0 <= x < blocks@.len() implies #[trigger] sound(blocks@[x]) by {
                        if x != i {
                            assert(blocks@[x] == s0[x]);
                        }
                    }
                }
                self.blocks = blocks;
                let len = content.len() as u64;
                self.stats = CASStatistics {
                    dedup_saved_bytes: self.stats.dedup_saved_bytes.saturating_add(len),
                    write_operations: self.stats.write_operations.saturating_add(1),
                    ..self.stats
                };
                proof {
                    Self::lemma_key_index(self.blocks@, i as int, hash@);
                }
                Ok(StoreResult { hash, is_new: false, original_size: len, stored_size })
            },
            None => {
                let data = if self.config.compression_enabled {
                    match compress_zstd(content, self.config.compression_level) {
                        Ok(c) => c,
                        Err(e) => {
                            return Err(e);
                        },
                    }
                } else {
                    vstd::slice::slice_to_vec(content)
                };
                let len = content.len() as u64;
                let stored_size = data.len() as u64;
                let checksum = if self.config.integrity_verification {
                    let digest = compute_checksum(data.as_slice());
                    Some(hex_string(vstd::array::array_as_slice(&digest)))
                } else {
                    None
                };
                let metadata = BlockMetadata {
                    hash: hex_string(vstd::array::array_as_slice(&hash)),
                    original_size: len,
                    stored_size,
                    compression: if self.config.compression_enabled {
                        Some(CompressionType::Zstd { level: self.config.compression_level })
                    } else {
                        None
                    },
                    encryption: if self.config.encryption_enabled {
                        Some(EncryptionType::Aes256Gcm)
                    } else {
                        None
                    },
                    created_at: now,
                    last_accessed: now,
                    ref_count: 1,
                    checksum,
                };
                let block = StoredBlock { key: hash, metadata, data };
                assert(len as usize == content@.len());
                assert(is_new_block(block, self.config, content@, now));
                assert(sound(block));
                let mut blocks = Vec::new();
                std::mem::swap(&mut blocks, &mut self.blocks);
                blocks.push(block);
                proof {
                    assert forall|x: int, y: int| 0 <= x < y < blocks@.len() implies #[trigger] blocks@[x].key@
                        != #[trigger] blocks@[y].key@ by {
                        if y == s0.len() {
                            assert(blocks@[x] == s0[x]);
                        } else {
                            assert(blocks@[x] == s0[x] && blocks@[y] == s0[y]);
                        }
                    }
                    assert forall|x: int| 0 <= x < blocks@.len() implies #[trigger] sound(blocks@[x]) by {
                        if x < s0.len() {
                            assert(blocks@[x] == s0[x]);
                        }
                    }
                    assert(blocks@.drop_last() =~= s0);
                }
                self.blocks = blocks;
                self.stats = CASStatistics {
                    total_blocks: self.stats.total_blocks.saturating_add(1),
                    total_stored_bytes: self.stats.total_stored_bytes.saturating_add(stored_size),
                    write_operations: self.stats.write_operations.saturating_add(1),
                    compression_saved_bytes: if self.config.compression_enabled {
                        self.stats.compression_saved_bytes.saturating_add(
                            len.saturating_sub(stored_size),
                        )
                    } else {
                        self.stats.compression_saved_bytes
                    },
                    ..self.stats
                };
                proof {
                    Self::lemma_key_index(self.blocks@, s0.len() as int, hash@);
                }
                Ok(StoreResult { hash, is_new: true, original_size: len, stored_size })
            },
        }
    }

    /// Read the content stored under a hash, reading the clock for the
    /// access time.
    pub fn retrieve(&mut self, hash: &BlockHash) -> (r: CASResult<Vec<u8>>)
        ensures
            exists|now: PhysicalTimestamp|
                retrieve_effect(
                    old(self).cfg(),
                    old(self).entries(),
                    old(self).counters(),
                    hash@,
                    now,
                    final(self).entries(),
                    final(self).counters(),
                    r,
                ),
            final(self).cfg() == old(self).cfg(),
            has_key(old(self).entries(), hash@) ==> (r matches Ok(v) && blake3_digest(v@) == hash@),
    {
        let now = PhysicalTimestamp::now();
        self.retrieve_at(hash, now)
    }

    /// Read the content stored under a hash at a given time: the stored bytes
    /// are checked against their checksum, where the configuration asks, and
    /// decompressed. A read of a stored hash always succeeds and gives
    /// content whose digest is the hash.
    pub fn retrieve_at(&mut self, hash: &BlockHash, now: PhysicalTimestamp) -> (r: CASResult<
        Vec<u8>,
    >)
        ensures
            retrieve_effect(
                old(self).cfg(),
                old(self).entries(),
                old(self).counters(),
                hash@,
                now,
                final(self).entries(),
                final(self).counters(),
                r,
            ),
            final(self).cfg() == old(self).cfg(),
            has_key(old(self).entries(), hash@) ==> (r matches Ok(v) && blake3_digest(v@) == hash@),
    {
        proof {
            use_type_invariant(&*self);
        }
        let ghost s0 = self.blocks@;
        match self.position(hash) {
            None => {
                self.stats = CASStatistics {
                    cache_misses: self.stats.cache_misses.saturating_add(1),
                    ..self.stats
                };
                Err(CASError::BlockNotFound { hash: hex_string(vstd::array::array_as_slice(hash)) })
            },
            Some(i) => {
                proof {
                    Self::lemma_key_index(s0, i as int, hash@);
                    assert(sound(s0[i as int]));
                }
                self.stats = CASStatistics {
                    cache_hits: self.stats.cache_hits.saturating_add(1),
                    ..self.stats
                };
                if self.config.integrity_verification {
                    match &self.blocks[i].metadata.checksum {
                        Some(expected) => {
                            let digest = compute_checksum(self.blocks[i].data.as_slice());
                            let actual = hex_string(vstd::array::array_as_slice(&digest));
                            if !(actual == *expected) {
                                return Err(
                                    CASError::IntegrityCheckFailed {
                                        expected: expected.clone(),
                                        actual,
                                    },
                                );
                            }
                        },
                        None => {},
                    }
                }
                let content = match self.blocks[i].metadata.compression {
                    Some(CompressionType::Zstd { .. }) => {
                        let size = self.blocks[i].metadata.original_size as usize;
                        match decompress_zstd(self.blocks[i].data.as_slice(), size) {
                            Ok(d) => d,
                            Err(e) => {
                                return Err(e);
                            },
                        }
                    },
                    _ => vstd::slice::slice_to_vec(self.blocks[i].data.as_slice()),
                };
                let mut blocks = Vec::new();
                std::mem::swap(&mut blocks, &mut self.blocks);
                let b = blocks.remove(i);
                let nb = StoredBlock {
                    key: b.key,
                    metadata: BlockMetadata { last_accessed: now, ..b.metadata },
                    data: b.data,
                };
                assert(nb == accessed(s0[i as int], now));
                blocks.insert(i, nb);
                proof {
                    assert(blocks@ =~= s0.update(i as int, accessed(s0[i as int], now)));
                    assert forall|x: int, y: int| 0 <= x < y < blocks@.len() implies #[trigger] blocks@[x].key@
                        != #[trigger] blocks@[y].key@ by {
                        assert(s0[x].key@ == blocks@[x].key@);
                        assert(s0[y].key@ == blocks@[y].key@);
                    }
                    assert forall|x: int| 0 <= x < blocks@.len() implies #[trigger] sound(blocks@[x]) by {
                        if x != i {
                            assert(blocks@[x] == s0[x]);
                        }
                    }
                }
                self.blocks = blocks;
                self.stats = CASStatistics {
                    read_operations: self.stats.read_operations.saturating_add(1),
                    ..self.stats
                };
                Ok(content)
            },
        }
    }

    /// Check the block stored under a hash by reading it, reading the clock
    /// for the access time: `Ok(true)` where it reads back, `Ok(false)`
    /// (counted as an integrity failure) where its checksum does not match.
    /// Blocks this store holds are always sound, so a stored hash checks out.
    pub fn verify_integrity(&mut self, hash: &BlockHash) -> (r: CASResult<bool>)
        ensures
            final(self).cfg() == old(self).cfg(),
            has_key(old(self).entries(), hash@) ==> r == Ok::<bool, CASError>(true),
            !has_key(old(self).entries(), hash@) ==> (r matches Err(
                CASError::BlockNotFound { hash: h },
            ) && h@ == hex_text(hash@)),
            has_key(old(self).entries(), hash@) ==> exists|now: PhysicalTimestamp|
                final(self).entries() == old(self).entries().update(
                    key_index(old(self).entries(), hash@),
                    #[trigger] accessed(old(self).entries()[key_index(old(self).entries(), hash@)], now),
                ),
            has_key(old(self).entries(), hash@) ==> final(self).counters() == (CASStatistics {
                cache_hits: old(self).counters().cache_hits.saturating_add(1),
                read_operations: old(self).counters().read_operations.saturating_add(1),
                ..old(self).counters()
            }),
            !has_key(old(self).entries(), hash@) ==> final(self).entries() == old(self).entries()
                && final(self).counters() == (CASStatistics {
                cache_misses: old(self).counters().cache_misses.saturating_add(1),
                ..old(self).counters()
            }),
    {
        match self.retrieve(hash) {
            Ok(_) => Ok(true),
            Err(CASError::IntegrityCheckFailed { .. }) => {
                self.stats = CASStatistics {
                    integrity_failures: self.stats.integrity_failures.saturating_add(1),
                    ..self.stats
                };
                Ok(false)
            },
            Err(e) => Err(e),
        }
    }

    /// The counters.
    pub fn statistics(&self) -> (r: CASStatistics)
        ensures
            r == self.counters(),
    {
        self.stats
    }

    /// Remove the blocks that no write references and give the bytes
    /// reclaimed.
    pub fn garbage_collect(&mut self) -> (r: u64)
        ensures
            final(self).entries() == kept_blocks(old(self).entries()),
            (final(self).counters(), r) == gc_totals(old(self).entries(), old(self).counters(), 0),
            final(self).cfg() == old(self).cfg(),
            forall|i: int|
                0 <= i < old(self).entries().len() && old(self).entries()[i].metadata.ref_count != 0
                    ==> #[trigger] final(self).entries().contains(old(self).entries()[i]),
            (forall|i: int|
                0 <= i < old(self).entries().len() ==> #[trigger] old(self).entries()[i].metadata.ref_count
                    != 0) ==> (r == 0 && final(self).entries() == old(self).entries() && final(self).counters()
                == old(self).counters()),
    {
        proof {
            use_type_invariant(&*self);
        }
        let ghost s0 = self.blocks@;
        let ghost st0 = self.stats;
        let mut blocks = Vec::new();
        std::mem::swap(&mut blocks, &mut self.blocks);
        let mut kept: Vec<StoredBlock> = Vec::new();
        let mut stats = self.stats;
        let mut reclaimed: u64 = 0;
        let ghost mut i: int = 0;
        assert(s0.take(0) =~= Seq::<StoredBlock>::empty());
        assert(s0.skip(0) =~= s0);
        while blocks.len() > 0
            invariant
                0 <= i <= s0.len(),
                blocks@ == s0.skip(i),
                kept@ == kept_blocks(s0.take(i)),
                (stats, reclaimed) == gc_totals(s0.take(i), st0, 0),
            decreases blocks@.len(),
        {
            let b = blocks.remove(0);
            proof {
                assert(b == s0[i]);
                assert(s0.take(i + 1).drop_last() =~= s0.take(i));
                assert(s0.take(i + 1).last() == s0[i]);
                assert(blocks@ =~= s0.skip(i + 1));
            }
            if b.metadata.ref_count == 0 {
                stats = CASStatistics {
                    total_blocks: stats.total_blocks.saturating_sub(1),
                    total_stored_bytes: stats.total_stored_bytes.saturating_sub(b.metadata.stored_size),
                    ..stats
                };
                reclaimed = reclaimed.saturating_add(b.metadata.stored_size);
            } else {
                kept.push(b);
            }
            proof {
                i = i + 1;
            }
        }
        proof {
            assert(i == s0.len());
            assert(s0.take(i) =~= s0);
            lemma_kept_well_formed(s0);
            gc_keeps_referenced_blocks(s0);
            if forall|i: int| 0 <= i < s0.len() ==> #[trigger] s0[i].metadata.ref_count != 0 {
                gc_of_referenced_blocks_changes_nothing(s0, st0, 0);
            }
        }
        self.blocks = kept;
        self.stats = stats;
        reclaimed
    }
}

} // verus!
