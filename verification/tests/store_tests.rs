use prism::cas::store::{
    CASConfig, CASStatistics, CompressionType, ContentAddressableStorage, EncryptionType,
};
use prism::cas::CASError;
use prism::crdt::PhysicalTimestamp;
use prism::text::hex_string;

fn dedup_ratio(stats: &CASStatistics) -> f64 {
    if stats.total_stored_bytes == 0 {
        return 0.0;
    }
    stats.dedup_saved_bytes as f64 / (stats.total_stored_bytes + stats.dedup_saved_bytes) as f64
}

#[test]
fn test_cas_creation() {
    let cas = ContentAddressableStorage::new();
    assert_eq!(cas.statistics(), CASStatistics::default());
}

#[test]
fn test_store_and_retrieve() {
    let mut cas = ContentAddressableStorage::new();

    let content = b"Hello, PRISM CAS!";
    let store_result = cas.store(content).unwrap();

    assert!(store_result.is_new);
    assert_eq!(store_result.original_size, content.len() as u64);

    let retrieved = cas.retrieve(&store_result.hash).unwrap();
    assert_eq!(retrieved, content);
}

#[test]
fn test_deduplication() {
    let mut cas = ContentAddressableStorage::new();

    let content = b"Duplicate content test";

    let result1 = cas.store(content).unwrap();
    let result2 = cas.store(content).unwrap();

    assert!(result1.is_new);
    assert!(!result2.is_new);

    assert_eq!(result1.hash, result2.hash);

    let stats = cas.statistics();
    assert!(dedup_ratio(&stats) > 0.0);
}

#[test]
fn test_integrity_verification() {
    let mut cas = ContentAddressableStorage::new();

    let content = b"Integrity test content";
    let store_result = cas.store(content).unwrap();

    let is_valid = cas.verify_integrity(&store_result.hash).unwrap();
    assert!(is_valid);
}

#[test]
fn test_compression() {
    let mut config = CASConfig::default();
    config.compression_enabled = true;

    let mut cas = ContentAddressableStorage::with_config(config);

    let content = vec![b'A'; 10000];
    let store_result = cas.store(&content).unwrap();

    assert!(store_result.stored_size < store_result.original_size);

    let retrieved = cas.retrieve(&store_result.hash).unwrap();
    assert_eq!(retrieved, content);
}

#[test]
fn test_blake3_hashing() {
    let content = b"Test content for hashing";
    let hash1 = blake3::hash(content);
    let hash2 = blake3::hash(content);

    assert_eq!(hash1, hash2);

    let different_content = b"Different test content";
    let hash3 = blake3::hash(different_content);
    assert_ne!(hash1, hash3);
}

#[test]
fn test_statistics() {
    let mut cas = ContentAddressableStorage::new();

    let content1 = b"First content";
    let content2 = b"Second content";
    let content3 = b"First content";

    cas.store(content1).unwrap();
    cas.store(content2).unwrap();
    cas.store(content3).unwrap();

    let stats = cas.statistics();

    assert_eq!(stats.total_blocks, 2);
    assert!(stats.dedup_saved_bytes > 0);
    assert_eq!(stats.write_operations, 3);
}

#[test]
fn default_config_values() {
    let config = CASConfig::default();
    assert_eq!(config.block_size, 4096);
    assert!(config.compression_enabled);
    assert_eq!(config.compression_level, 6);
    assert!(!config.encryption_enabled);
    assert_eq!(config.max_cache_size, 512 * 1024 * 1024);
    assert!(config.integrity_verification);
    assert_eq!(config.gc_threshold_percent, 90);
}

#[test]
fn store_key_is_the_blake3_digest() {
    let mut cas = ContentAddressableStorage::new();
    let content = b"addressed by content";
    let r = cas.store(content).unwrap();
    assert_eq!(r.hash, *blake3::hash(content).as_bytes());
}

#[test]
fn hex_text_matches_blake3_hex() {
    let digest = blake3::hash(b"hex me");
    assert_eq!(hex_string(digest.as_bytes()), digest.to_hex().to_string());
    assert_eq!(hex_string(&[0x00, 0x0f, 0xa5, 0xff]), "000fa5ff");
    assert_eq!(hex_string(&[]), "");
}

#[test]
fn retrieve_of_unknown_hash_is_block_not_found() {
    let mut cas = ContentAddressableStorage::new();
    let missing = [7u8; 32];
    match cas.retrieve(&missing) {
        Err(CASError::BlockNotFound { hash }) => assert_eq!(hash, "07".repeat(32)),
        other => panic!("unexpected {:?}", other),
    }
    assert_eq!(cas.statistics().cache_misses, 1);
    match cas.verify_integrity(&missing) {
        Err(CASError::BlockNotFound { .. }) => {}
        other => panic!("unexpected {:?}", other),
    }
}

#[test]
fn uncompressed_store_keeps_content_as_is() {
    let mut config = CASConfig::default();
    config.compression_enabled = false;
    let mut cas = ContentAddressableStorage::with_config(config);
    let content = b"plain bytes";
    let r = cas.store(content).unwrap();
    assert_eq!(r.stored_size, content.len() as u64);
    assert_eq!(cas.retrieve(&r.hash).unwrap(), content);
    assert_eq!(cas.statistics().compression_saved_bytes, 0);
}

#[test]
fn counters_follow_writes_and_reads() {
    let mut cas = ContentAddressableStorage::new();
    let content = vec![b'z'; 4000];
    let r = cas.store(&content).unwrap();
    let again = cas.store(&content).unwrap();
    assert_eq!(again.stored_size, r.stored_size);
    cas.retrieve(&r.hash).unwrap();
    let stats = cas.statistics();
    assert_eq!(stats.total_blocks, 1);
    assert_eq!(stats.total_stored_bytes, r.stored_size);
    assert_eq!(stats.dedup_saved_bytes, 4000);
    assert_eq!(stats.compression_saved_bytes, 4000 - r.stored_size);
    assert_eq!(stats.write_operations, 2);
    assert_eq!(stats.read_operations, 1);
    assert_eq!(stats.cache_hits, 1);
    assert_eq!(stats.cache_misses, 0);
}

#[test]
fn small_content_that_grows_under_compression_saves_nothing() {
    let mut cas = ContentAddressableStorage::new();
    let r = cas.store(b"ab").unwrap();
    assert!(r.stored_size > r.original_size);
    assert_eq!(cas.statistics().compression_saved_bytes, 0);
    assert_eq!(cas.retrieve(&r.hash).unwrap(), b"ab");
}

#[test]
fn garbage_collection_keeps_referenced_blocks() {
    let mut cas = ContentAddressableStorage::new();
    let r = cas.store(b"kept").unwrap();
    assert_eq!(cas.garbage_collect(), 0);
    assert_eq!(cas.retrieve(&r.hash).unwrap(), b"kept");
    assert_eq!(cas.statistics().total_blocks, 1);
}

#[test]
fn store_at_records_the_time() {
    let mut cas = ContentAddressableStorage::new();
    let t = PhysicalTimestamp::from_datetime(1_700_000_000, 5);
    let r = cas.store_at(b"timed", t).unwrap();
    assert!(r.is_new);
    let later = PhysicalTimestamp::from_datetime(1_700_000_100, 0);
    assert_eq!(cas.retrieve_at(&r.hash, later).unwrap(), b"timed");
}

#[test]
fn compression_and_encryption_kinds() {
    assert_eq!(CompressionType::Zstd { level: 3 }, CompressionType::Zstd { level: 3 });
    assert_ne!(CompressionType::Lz4, CompressionType::Uncompressed);
    assert_ne!(EncryptionType::Aes256Gcm, EncryptionType::Unencrypted);
}
