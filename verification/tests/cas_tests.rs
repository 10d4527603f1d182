use prism::cas::compression::{
    estimate_optimal_level, compress_lz4, compress_snappy, compress_zstd, decompress_lz4, decompress_snappy,
    decompress_zstd,
};
use prism::cas::encryption::{
    decrypt_aes_gcm, decrypt_chacha20poly1305, derive_key_from_password,
    derive_key_from_password_with_salt, encrypt_aes_gcm, encrypt_aes_gcm_with_nonce,
    encrypt_chacha20poly1305, generate_random_key, secure_wipe, KeyManager, AES_KEY_SIZE,
    AES_NONCE_SIZE, AUTH_TAG_SIZE, CHACHA_KEY_SIZE, CHACHA_NONCE_SIZE,
};
use prism::cas::integrity::{
    batch_verify_integrity, calculate_integrity_statistics, compute_checksum,
    repair_corrupted_block, verify_data_integrity, BlockHash, MerkleTree, VerificationResult,
};
use prism::cas::CASError;

#[test]
fn test_zstd_compression() {
    let data = b"Hello, this is test data for compression!".repeat(100);
    let compressed = compress_zstd(&data, 6).unwrap();

    assert!(compressed.len() < data.len());

    let decompressed = decompress_zstd(&compressed, data.len()).unwrap();
    assert_eq!(decompressed, data);
}

#[test]
fn zstd_decompression_fails_with_too_small_capacity() {
    let data = b"0123456789".repeat(20);
    let compressed = compress_zstd(&data, 3).unwrap();
    assert!(matches!(decompress_zstd(&compressed, 10), Err(CASError::Compression(_))));
}

#[test]
fn test_lz4_compression() {
    let data = b"Test data for LZ4 compression algorithm".repeat(50);
    let compressed = compress_lz4(&data).unwrap();

    assert!(compressed.len() < data.len());

    let decompressed = decompress_lz4(&compressed).unwrap();
    assert_eq!(decompressed, data);
}

#[test]
fn snappy_round_trip() {
    let data = b"snappy snappy snappy snappy".repeat(10);
    let compressed = compress_snappy(&data).unwrap();
    assert_ne!(compressed, data);
    assert_eq!(decompress_snappy(&compressed).unwrap(), data);
    assert!(matches!(decompress_snappy(b"\xff\xff\xff\xff\xff"), Err(CASError::Compression(_))));
}

#[test]
fn test_key_generation() {
    let key1 = generate_random_key::<32>();
    let key2 = generate_random_key::<32>();

    assert_ne!(key1, key2);

    assert_ne!(key1, [0u8; 32]);
    assert_ne!(key2, [0u8; 32]);
}

#[test]
fn test_secure_wipe() {
    let mut data = [0x42u8; 32];
    assert_eq!(data[0], 0x42);

    secure_wipe(&mut data);
    assert_eq!(data[0], 0x00);
    assert!(data.iter().all(|b| *b == 0));
}

#[test]
fn test_key_manager() {
    let mut km = KeyManager::new();

    let key1 = km.derive_key("purpose1").unwrap();
    let key2 = km.derive_key("purpose2").unwrap();
    let key1_again = km.derive_key("purpose1").unwrap();

    assert_ne!(key1, key2);

    assert_eq!(key1, key1_again);
}

#[test]
fn key_manager_derives_hkdf_sha256_of_the_master_key() {
    let master = [7u8; 32];
    let mut km = KeyManager::from_master_key(master);
    let key = km.derive_key("storage").unwrap();
    let hk = hkdf::Hkdf::<sha2::Sha256>::new(None, &master);
    let mut expected = [0u8; 32];
    hk.expand(b"storage", &mut expected).unwrap();
    assert_eq!(key, expected);
    let mut other = KeyManager::from_master_key(master);
    assert_eq!(other.derive_key("storage").unwrap(), key);
}

#[test]
fn key_manager_clear_wipes_master_key() {
    let master = [9u8; 32];
    let mut km = KeyManager::from_master_key(master);
    let before = km.derive_key("p").unwrap();
    km.clear();
    let after = km.derive_key("p").unwrap();
    let mut zeroed = KeyManager::from_master_key([0u8; 32]);
    assert_eq!(after, zeroed.derive_key("p").unwrap());
    assert_ne!(before, after);
}

#[test]
fn test_password_based_encryption() {
    let password = b"strong_password_123";
    let plaintext = b"This is secret data that needs encryption";

    let (key, salt) = derive_key_from_password(password, None).unwrap();

    let encrypted = encrypt_aes_gcm(plaintext, &key).unwrap();

    assert_ne!(encrypted.ciphertext, plaintext);

    let decrypted = decrypt_aes_gcm(&encrypted, &key).unwrap();
    assert_eq!(decrypted, plaintext);

    let (key2, _) = derive_key_from_password(password, Some(&salt)).unwrap();
    assert_eq!(key, key2);
}

#[test]
fn password_key_with_too_short_salt_fails() {
    // Argon2 needs at least 8 bytes of salt.
    let r = derive_key_from_password_with_salt(b"pw", vec![1, 2, 3, 4, 5]);
    assert!(matches!(r, Err(CASError::Encryption(_))));
}

#[test]
fn test_aes_gcm_encryption() {
    let key = generate_random_key::<AES_KEY_SIZE>();
    let plaintext = b"Hello, this is a test message for AES-GCM encryption!";

    let encrypted = encrypt_aes_gcm(plaintext, &key).unwrap();

    assert!(!encrypted.ciphertext.is_empty());
    assert_eq!(encrypted.nonce.len(), AES_NONCE_SIZE);
    assert_eq!(encrypted.tag.len(), AUTH_TAG_SIZE);

    assert_ne!(encrypted.ciphertext, plaintext);

    let decrypted = decrypt_aes_gcm(&encrypted, &key).unwrap();
    assert_eq!(decrypted, plaintext);
}

#[test]
fn aes_gcm_rejects_bad_nonce_and_tampering() {
    let key = [3u8; 32];
    let plaintext = b"tamper me";
    let mut e = encrypt_aes_gcm_with_nonce(plaintext, &key, vec![1u8; 12]).unwrap();
    assert_eq!(e.nonce, vec![1u8; 12]);
    e.ciphertext[0] ^= 1;
    assert!(matches!(decrypt_aes_gcm(&e, &key), Err(CASError::Encryption(_))));
    e.ciphertext[0] ^= 1;
    assert_eq!(decrypt_aes_gcm(&e, &key).unwrap(), plaintext);
    e.nonce.pop();
    assert!(matches!(decrypt_aes_gcm(&e, &key), Err(CASError::Encryption(_))));
    assert!(matches!(
        encrypt_aes_gcm_with_nonce(plaintext, &key, vec![0u8; 5]),
        Err(CASError::Encryption(_))
    ));
}

#[test]
fn test_chacha20poly1305_encryption() {
    let key = generate_random_key::<CHACHA_KEY_SIZE>();
    let plaintext = b"Hello, this is a test message for ChaCha20Poly1305 encryption!";

    let encrypted = encrypt_chacha20poly1305(plaintext, &key).unwrap();

    assert!(!encrypted.ciphertext.is_empty());
    assert_eq!(encrypted.nonce.len(), CHACHA_NONCE_SIZE);
    assert_eq!(encrypted.tag.len(), AUTH_TAG_SIZE);

    assert_ne!(encrypted.ciphertext, plaintext);

    let decrypted = decrypt_chacha20poly1305(&encrypted, &key).unwrap();
    assert_eq!(decrypted, plaintext);
}

#[test]
fn test_checksum_computation() {
    let data = b"Hello, PRISM integrity verification!";
    let hash1 = compute_checksum(data);
    let hash2 = compute_checksum(data);

    assert_eq!(hash1, hash2);

    let different_data = b"Different data";
    let hash3 = compute_checksum(different_data);
    assert_ne!(hash1, hash3);
    assert_eq!(hash1, *blake3::hash(data).as_bytes());
}

#[test]
fn test_data_integrity_verification() {
    let data = b"Test data for integrity verification";
    let expected_hash = compute_checksum(data);

    let result = verify_data_integrity(data, expected_hash);
    assert_eq!(result, VerificationResult::Valid);

    let corrupted_data = b"Test data for integrity corruption";
    let result = verify_data_integrity(corrupted_data, expected_hash);
    assert!(matches!(result, VerificationResult::Corrupted { .. }));
}

#[test]
fn test_merkle_tree_creation() {
    let data_blocks = vec![
        b"block 1".as_slice(),
        b"block 2".as_slice(),
        b"block 3".as_slice(),
        b"block 4".as_slice(),
    ];

    let leaf_hashes: Vec<BlockHash> = data_blocks.iter().map(|data| compute_checksum(data)).collect();

    let tree = MerkleTree::from_leaves(leaf_hashes.clone()).unwrap();
    assert!(tree.root_hash().is_some());

    for &leaf_hash in &leaf_hashes {
        let proof = tree.generate_proof(leaf_hash).unwrap();
        assert_eq!(proof.data_hash, leaf_hash);
        assert_eq!(proof.root_hash, tree.root_hash().unwrap());

        assert!(tree.verify_proof(&proof));
    }
}

#[test]
fn merkle_tree_odd_leaves_and_errors() {
    let leaves: Vec<BlockHash> = (0u8..5).map(|i| compute_checksum(&[i])).collect();
    let tree = MerkleTree::from_leaves(leaves.clone()).unwrap();
    for leaf in &leaves {
        let proof = tree.generate_proof(*leaf).unwrap();
        assert!(tree.verify_proof(&proof));
    }
    // The last leaf is carried up alone at the first level.
    let last = tree.generate_proof(leaves[4]).unwrap();
    assert_eq!(last.siblings.len(), 1);
    assert_eq!(last.merkle_path.len(), 3);
    let mut forged = tree.generate_proof(leaves[0]).unwrap();
    forged.data_hash = compute_checksum(b"other");
    assert!(!tree.verify_proof(&forged));
    assert!(matches!(tree.generate_proof(compute_checksum(b"absent")), Err(CASError::Corruption { .. })));
    assert!(matches!(MerkleTree::from_leaves(vec![]), Err(CASError::Corruption { .. })));
    assert!(MerkleTree::new().root_hash().is_none());
    assert!(matches!(MerkleTree::new().generate_proof(leaves[0]), Err(CASError::Corruption { .. })));
}

#[test]
fn merkle_single_leaf_is_its_own_root() {
    let leaf = compute_checksum(b"only");
    let tree = MerkleTree::from_leaves(vec![leaf]).unwrap();
    assert_eq!(tree.root_hash(), Some(leaf));
    let proof = tree.generate_proof(leaf).unwrap();
    assert!(proof.siblings.is_empty());
    assert!(tree.verify_proof(&proof));
}

#[test]
fn test_batch_integrity_verification() {
    let test_data = vec![
        (b"data block 1".as_slice(), compute_checksum(b"data block 1")),
        (b"data block 2".as_slice(), compute_checksum(b"data block 2")),
        (b"data block 3".as_slice(), compute_checksum(b"data block 3")),
    ];

    let data_blocks: Vec<(BlockHash, &[u8])> = test_data.iter().map(|(data, hash)| (*hash, *data)).collect();

    let result = batch_verify_integrity(&data_blocks);

    assert_eq!(result.total_checked, 3);
    assert_eq!(result.valid_blocks, 3);
    assert_eq!(result.corrupted_blocks, 0);
    assert!(result.failures.is_empty());
}

#[test]
fn batch_verification_lists_corrupted_blocks() {
    let good = compute_checksum(b"good");
    let expected_bad = compute_checksum(b"expected");
    let blocks: Vec<(BlockHash, &[u8])> = vec![(good, b"good"), (expected_bad, b"actual")];
    let result = batch_verify_integrity(&blocks);
    assert_eq!(result.valid_blocks, 1);
    assert_eq!(result.corrupted_blocks, 1);
    assert_eq!(result.failures.len(), 1);
    assert_eq!(result.failures[0].0, expected_bad);
    assert_eq!(
        result.failures[0].1,
        VerificationResult::Corrupted { expected: expected_bad, actual: compute_checksum(b"actual") }
    );
}

#[test]
fn test_data_repair() {
    let original_data = b"This is the original correct data";
    let expected_hash = compute_checksum(original_data);

    let mut corrupted_data = original_data.to_vec();
    corrupted_data[10] = b'X';

    let redundant_copies = vec![original_data.as_slice(), corrupted_data.as_slice()];

    let repaired = repair_corrupted_block(&corrupted_data, &redundant_copies, expected_hash).unwrap();

    assert_eq!(repaired, original_data);
    assert_eq!(verify_data_integrity(&repaired, expected_hash), VerificationResult::Valid);
}

#[test]
fn repair_by_majority_vote() {
    let original = b"abcdefgh".to_vec();
    let expected = compute_checksum(&original);
    let mut c1 = original.clone();
    c1[1] = b'X';
    let mut c2 = original.clone();
    c2[5] = b'Y';
    let mut corrupted = original.clone();
    corrupted[7] = b'Z';
    let copies = vec![c1.as_slice(), c2.as_slice()];
    let repaired = repair_corrupted_block(&corrupted, &copies, expected).unwrap();
    assert_eq!(repaired, original);
    let single = vec![c1.as_slice()];
    assert!(matches!(repair_corrupted_block(&corrupted, &single, expected), Err(CASError::Corruption { .. })));
}

#[test]
fn test_integrity_statistics() {
    let results = vec![
        VerificationResult::Valid,
        VerificationResult::Valid,
        VerificationResult::Corrupted {
            expected: compute_checksum(b"expected"),
            actual: compute_checksum(b"actual"),
        },
        VerificationResult::Missing,
        VerificationResult::Valid,
    ];

    let stats = calculate_integrity_statistics(&results);

    assert_eq!(stats.total_blocks, 5);
    assert_eq!(stats.valid_blocks, 3);
    assert_eq!(stats.corrupted_blocks, 1);
    assert_eq!(stats.missing_blocks, 1);
    assert_eq!(stats.error_blocks, 0);
    assert_eq!(stats.valid_blocks as f64 / stats.total_blocks as f64, 0.6);
}

#[test]
fn test_optimal_level_estimation() {
    let random_data = (0..1000).map(|i| (i * 17) as u8).collect::<Vec<_>>();
    let level = estimate_optimal_level(&random_data);
    assert!(level <= 6);

    let repeated_data = vec![b'A'; 1000];
    let level = estimate_optimal_level(&repeated_data);
    assert!(level >= 10);
}

#[test]
fn optimal_level_exact_entropy_boundaries() {
    // 128 distinct bytes, 8 times each: exactly 7 bits per byte, not above.
    let seven_bits: Vec<u8> = (0..1024).map(|i| (i % 128) as u8).collect();
    assert_eq!(estimate_optimal_level(&seven_bits), 6);
    // All 256 bytes equally often: 8 bits per byte.
    let eight_bits: Vec<u8> = (0..1024).map(|i| (i % 256) as u8).collect();
    assert_eq!(estimate_optimal_level(&eight_bits), 1);
    // 16 distinct bytes: exactly 4 bits per byte, not above.
    let four_bits: Vec<u8> = (0..1024).map(|i| (i % 16) as u8).collect();
    assert_eq!(estimate_optimal_level(&four_bits), 19);
    // 32 distinct bytes: 5 bits per byte.
    let five_bits: Vec<u8> = (0..1024).map(|i| (i % 32) as u8).collect();
    assert_eq!(estimate_optimal_level(&five_bits), 6);
    assert_eq!(estimate_optimal_level(&[]), 19);
    // Only the first 1024 bytes count.
    let mut long = vec![b'A'; 1024];
    long.extend((0..4096).map(|i| (i % 256) as u8));
    assert_eq!(estimate_optimal_level(&long), 19);
}

#[test]
fn missing_leaf_error_names_the_hash() {
    let leaves: Vec<BlockHash> = vec![compute_checksum(b"one"), compute_checksum(b"two")];
    let tree = MerkleTree::from_leaves(leaves).unwrap();
    let absent = compute_checksum(b"absent");
    match tree.generate_proof(absent) {
        Err(CASError::Corruption { details }) => assert_eq!(
            details,
            format!("Leaf hash not found in tree: {}", blake3::hash(b"absent").to_hex())
        ),
        other => panic!("unexpected {:?}", other),
    }
    match MerkleTree::new().generate_proof(absent) {
        Err(CASError::Corruption { details }) => assert_eq!(details, "Merkle tree has no root"),
        other => panic!("unexpected {:?}", other),
    }
}

#[test]
fn empty_data_gets_level_19() {
    assert_eq!(estimate_optimal_level(&[]), 19);
    let a: Vec<u8> = (0..=255u8).cycle().take(1024).collect();
    let mut b = a.clone();
    b.reverse();
    b.extend_from_slice(&[7u8; 100]);
    assert_eq!(estimate_optimal_level(&a), estimate_optimal_level(&b));
}

#[test]
fn derived_keys_do_not_depend_on_earlier_calls() {
    let master = [3u8; 32];
    let mut fresh = KeyManager::from_master_key(master);
    let expected = fresh.derive_key("blocks").unwrap();
    let mut used = KeyManager::from_master_key(master);
    used.derive_key("index").unwrap();
    used.derive_key("blocks").unwrap();
    used.derive_key("other").unwrap();
    assert_eq!(used.derive_key("blocks").unwrap(), expected);
}

#[test]
fn ciphertext_keeps_the_plaintext_length() {
    let key = generate_random_key::<AES_KEY_SIZE>();
    let msg = b"Hello, this is a test message for AES-GCM encryption!";
    let e = encrypt_aes_gcm(msg, &key).unwrap();
    assert_eq!(e.ciphertext.len(), msg.len());
    assert_eq!(e.tag.len(), AUTH_TAG_SIZE);
    let c = encrypt_chacha20poly1305(msg, &key).unwrap();
    assert_eq!(c.ciphertext.len(), msg.len());
    assert_eq!(c.tag.len(), AUTH_TAG_SIZE);
}
