//! Encryption of stored blocks: AES-256-GCM and ChaCha20-Poly1305 with
//! detached tags, password-based key derivation with Argon2, random keys,
//! wiping of key material, and a key manager deriving per-purpose keys with
//! HKDF-SHA256.
use crate::cas::CASError;
use aes_gcm::aead::{AeadInPlace, KeyInit};
use rand::RngCore;
use vstd::prelude::*;
use vstd::string::StringSliceAdditionalSpecFns;

verus! {

broadcast use vstd::array::group_array_axioms;

/// AES-256-GCM key size in bytes.
pub const AES_KEY_SIZE: usize = 32;

/// AES-256-GCM nonce size in bytes.
pub const AES_NONCE_SIZE: usize = 12;

/// Authentication tag size in bytes.
pub const AUTH_TAG_SIZE: usize = 16;

/// ChaCha20-Poly1305 key size in bytes.
pub const CHACHA_KEY_SIZE: usize = 32;

/// ChaCha20-Poly1305 nonce size in bytes.
pub const CHACHA_NONCE_SIZE: usize = 12;

/// Argon2 salt size in bytes.
pub const SALT_SIZE: usize = 16;

/// Longest plaintext AES-256-GCM accepts, in bytes.
pub const AES_GCM_MAX_PLAINTEXT: u64 = 0x10_0000_0000;

/// Encrypted data with its nonce, tag and, for password-derived keys, salt.
#[derive(Debug, Clone)]
pub struct EncryptedData {
    /// Encrypted payload.
    pub ciphertext: Vec<u8>,
    /// Nonce used for encryption.
    pub nonce: Vec<u8>,
    /// Authentication tag.
    pub tag: Vec<u8>,
    /// Salt used for key derivation, if any.
    pub salt: Option<Vec<u8>>,
}

/// The (ciphertext, tag) pair that AES-256-GCM gives for a key, a nonce and a
/// plaintext, with no associated data.
pub uninterp spec fn aes_gcm_seal(key: Seq<u8>, nonce: Seq<u8>, plaintext: Seq<u8>) -> (
    Seq<u8>,
    Seq<u8>,
);

/// The plaintext AES-256-GCM recovers from a ciphertext and tag, with no
/// associated data; `None` where authentication fails.
pub uninterp spec fn aes_gcm_open(
    key: Seq<u8>,
    nonce: Seq<u8>,
    ciphertext: Seq<u8>,
    tag: Seq<u8>,
) -> Option<Seq<u8>>;

/// The (ciphertext, tag) pair that ChaCha20-Poly1305 gives, with no
/// associated data.
pub uninterp spec fn chacha_seal(key: Seq<u8>, nonce: Seq<u8>, plaintext: Seq<u8>) -> (
    Seq<u8>,
    Seq<u8>,
);

/// The plaintext ChaCha20-Poly1305 recovers; `None` where authentication fails.
pub uninterp spec fn chacha_open(
    key: Seq<u8>,
    nonce: Seq<u8>,
    ciphertext: Seq<u8>,
    tag: Seq<u8>,
) -> Option<Seq<u8>>;

/// `encrypt_in_place_detached` of `aes_gcm::Aes256Gcm` (made with
/// `KeyInit::new` from `key`), with empty associated data. Claimed, from its
/// source: it fails exactly when the plaintext is longer than 2^36 bytes;
/// otherwise the ciphertext has the plaintext's length, (ciphertext, tag) is
/// `aes_gcm_seal` of the arguments, and opening them with the same key and
/// nonce gives the plaintext back.
#[verifier::external_body]
fn aes_gcm_encrypt_detached(key: &[u8; 32], nonce: &[u8], plaintext: &[u8]) -> (r: Option<
    (Vec<u8>, Vec<u8>),
>)
    requires
        nonce@.len() == 12,
    ensures
        r is Some <==> plaintext@.len() <= AES_GCM_MAX_PLAINTEXT,
        r matches Some(ct) ==> {
            &&& (ct.0@, ct.1@) == aes_gcm_seal(key@, nonce@, plaintext@)
            &&& ct.0@.len() == plaintext@.len()
            &&& ct.1@.len() == 16
            &&& aes_gcm_open(key@, nonce@, ct.0@, ct.1@) == Some(plaintext@)
        },
{
    let cipher = aes_gcm::Aes256Gcm::new(key.into());
    let mut buffer = plaintext.to_vec();
    match cipher.encrypt_in_place_detached(aes_gcm::Nonce::from_slice(nonce), b"", &mut buffer) {
        Ok(tag) => Some((buffer, tag.to_vec())),
        Err(_) => None,
    }
}

/// `decrypt_in_place_detached` of `aes_gcm::Aes256Gcm`, with empty associated
/// data. Claimed: the result is `aes_gcm_open` of the arguments.
#[verifier::external_body]
fn aes_gcm_decrypt_detached(key: &[u8; 32], nonce: &[u8], ciphertext: &[u8], tag: &[u8]) -> (r:
    Option<Vec<u8>>)
    requires
        nonce@.len() == 12,
        tag@.len() == 16,
    ensures
        match r {
            Some(p) => aes_gcm_open(key@, nonce@, ciphertext@, tag@) == Some(p@),
            None => aes_gcm_open(key@, nonce@, ciphertext@, tag@) is None,
        },
{
    let cipher = aes_gcm::Aes256Gcm::new(key.into());
    let mut buffer = ciphertext.to_vec();
    match cipher.decrypt_in_place_detached(
        aes_gcm::Nonce::from_slice(nonce),
        b"",
        &mut buffer,
        aes_gcm::Tag::from_slice(tag),
    ) {
        Ok(()) => Some(buffer),
        Err(_) => None,
    }
}

/// `encrypt_in_place_detached` of `chacha20poly1305::ChaCha20Poly1305`, with
/// empty associated data. Claimed, from its source: it fails exactly when the
/// plaintext has 2^32 - 1 or more 64-byte blocks; otherwise the ciphertext
/// has the plaintext's length, (ciphertext, tag) is `chacha_seal` of the
/// arguments, and opening them gives the plaintext back.
#[verifier::external_body]
fn chacha_encrypt_detached(key: &[u8; 32], nonce: &[u8], plaintext: &[u8]) -> (r: Option<
    (Vec<u8>, Vec<u8>),
>)
    requires
        nonce@.len() == 12,
    ensures
        r is Some <==> plaintext@.len() / 64 < u32::MAX,
        r matches Some(ct) ==> {
            &&& (ct.0@, ct.1@) == chacha_seal(key@, nonce@, plaintext@)
            &&& ct.0@.len() == plaintext@.len()
            &&& ct.1@.len() == 16
            &&& chacha_open(key@, nonce@, ct.0@, ct.1@) == Some(plaintext@)
        },
{
    let cipher = chacha20poly1305::ChaCha20Poly1305::new(key.into());
    let mut buffer = plaintext.to_vec();
    match cipher.encrypt_in_place_detached(
        chacha20poly1305::Nonce::from_slice(nonce),
        b"",
        &mut buffer,
    ) {
        Ok(tag) => Some((buffer, tag.to_vec())),
        Err(_) => None,
    }
}

/// `decrypt_in_place_detached` of `chacha20poly1305::ChaCha20Poly1305`, with
/// empty associated data. Claimed: the result is `chacha_open` of the arguments.
#[verifier::external_body]
fn chacha_decrypt_detached(key: &[u8; 32], nonce: &[u8], ciphertext: &[u8], tag: &[u8]) -> (r:
    Option<Vec<u8>>)
    requires
        nonce@.len() == 12,
        tag@.len() == 16,
    ensures
        match r {
            Some(p) => chacha_open(key@, nonce@, ciphertext@, tag@) == Some(p@),
            None => chacha_open(key@, nonce@, ciphertext@, tag@) is None,
        },
{
    let cipher = chacha20poly1305::ChaCha20Poly1305::new(key.into());
    let mut buffer = ciphertext.to_vec();
    match cipher.decrypt_in_place_detached(
        chacha20poly1305::Nonce::from_slice(nonce),
        b"",
        &mut buffer,
        chacha20poly1305::Tag::from_slice(tag),
    ) {
        Ok(()) => Some(buffer),
        Err(_) => None,
    }
}

/// `rand::RngCore::fill_bytes` on `rand::thread_rng()`: fills `buf` with
/// random bytes; nothing is claimed of them.
#[verifier::external_body]
fn fill_random<const N: usize>(buf: &mut [u8; N]) {
    rand::thread_rng().fill_bytes(buf)
}

/// What decrypting encrypted data with AES-256-GCM gives: `None` for a nonce
/// or tag of the wrong size or a failed authentication.
pub open spec fn aes_gcm_decryption(e: EncryptedData, key: Seq<u8>) -> Option<Seq<u8>> {
    if e.nonce@.len() != AES_NONCE_SIZE || e.tag@.len() != AUTH_TAG_SIZE {
        None
    } else {
        aes_gcm_open(key, e.nonce@, e.ciphertext@, e.tag@)
    }
}

/// What decrypting encrypted data with ChaCha20-Poly1305 gives.
pub open spec fn chacha_decryption(e: EncryptedData, key: Seq<u8>) -> Option<Seq<u8>> {
    if e.nonce@.len() != CHACHA_NONCE_SIZE || e.tag@.len() != AUTH_TAG_SIZE {
        None
    } else {
        chacha_open(key, e.nonce@, e.ciphertext@, e.tag@)
    }
}

/// Encrypt with AES-256-GCM under a given nonce. The result decrypts back to
/// the plaintext.
pub fn encrypt_aes_gcm_with_nonce(plaintext: &[u8], key: &[u8; 32], nonce: Vec<u8>) -> (r: Result<
    EncryptedData,
    CASError,
>)
    ensures
        match r {
            Ok(e) => {
                &&& nonce@.len() == AES_NONCE_SIZE && plaintext@.len() <= AES_GCM_MAX_PLAINTEXT
                &&& e.nonce@ == nonce@
                &&& (e.ciphertext@, e.tag@) == aes_gcm_seal(key@, nonce@, plaintext@)
                &&& e.salt is None
                &&& e.ciphertext@.len() == plaintext@.len()
                &&& e.tag@.len() == AUTH_TAG_SIZE
                &&& aes_gcm_decryption(e, key@) == Some(plaintext@)
            },
            Err(err) => (nonce@.len() != AES_NONCE_SIZE || plaintext@.len() > AES_GCM_MAX_PLAINTEXT)
                && err is Encryption,
        },
{
    if nonce.len() != AES_NONCE_SIZE {
        return Err(CASError::Encryption("Invalid nonce size for AES-GCM".to_string()));
    }
    match aes_gcm_encrypt_detached(key, nonce.as_slice(), plaintext) {
        Some((ciphertext, tag)) => Ok(EncryptedData { ciphertext, nonce, tag, salt: None }),
        None => Err(CASError::Encryption("AES-GCM encryption failed".to_string())),
    }
}

/// Encrypt with AES-256-GCM under a fresh random nonce.
pub fn encrypt_aes_gcm(plaintext: &[u8], key: &[u8; 32]) -> (r: Result<EncryptedData, CASError>)
    ensures
        match r {
            Ok(e) => {
                &&& plaintext@.len() <= AES_GCM_MAX_PLAINTEXT
                &&& e.nonce@.len() == AES_NONCE_SIZE
                &&& (e.ciphertext@, e.tag@) == aes_gcm_seal(key@, e.nonce@, plaintext@)
                &&& e.salt is None
                &&& e.ciphertext@.len() == plaintext@.len()
                &&& e.tag@.len() == AUTH_TAG_SIZE
                &&& aes_gcm_decryption(e, key@) == Some(plaintext@)
            },
            Err(err) => plaintext@.len() > AES_GCM_MAX_PLAINTEXT && err is Encryption,
        },
{
    let mut nonce_bytes = [0u8; 12];
    fill_random(&mut nonce_bytes);
    let nonce = vstd::slice::slice_to_vec(nonce_bytes.as_slice());
    encrypt_aes_gcm_with_nonce(plaintext, key, nonce)
}

/// Decrypt AES-256-GCM data; fails for a nonce or tag of the wrong size or a
/// failed authentication.
pub fn decrypt_aes_gcm(encrypted: &EncryptedData, key: &[u8; 32]) -> (r: Result<Vec<u8>, CASError>)
    ensures
        match r {
            Ok(p) => aes_gcm_decryption(*encrypted, key@) == Some(p@),
            Err(err) => aes_gcm_decryption(*encrypted, key@) is None && err is Encryption,
        },
{
    if encrypted.nonce.len() != AES_NONCE_SIZE {
        return Err(CASError::Encryption("Invalid nonce size for AES-GCM".to_string()));
    }
    if encrypted.tag.len() != AUTH_TAG_SIZE {
        return Err(CASError::Encryption("Invalid tag size for AES-GCM".to_string()));
    }
    match aes_gcm_decrypt_detached(
        key,
        encrypted.nonce.as_slice(),
        encrypted.ciphertext.as_slice(),
        encrypted.tag.as_slice(),
    ) {
        Some(p) => Ok(p),
        None => Err(CASError::Encryption("AES-GCM decryption failed".to_string())),
    }
}

/// Encrypt with ChaCha20-Poly1305 under a given nonce. The result decrypts
/// back to the plaintext.
pub fn encrypt_chacha20poly1305_with_nonce(
    plaintext: &[u8],
    key: &[u8; 32],
    nonce: Vec<u8>,
) -> (r: Result<EncryptedData, CASError>)
    ensures
        match r {
            Ok(e) => {
                &&& nonce@.len() == CHACHA_NONCE_SIZE && plaintext@.len() / 64 < u32::MAX
                &&& e.nonce@ == nonce@
                &&& (e.ciphertext@, e.tag@) == chacha_seal(key@, nonce@, plaintext@)
                &&& e.salt is None
                &&& e.ciphertext@.len() == plaintext@.len()
                &&& e.tag@.len() == AUTH_TAG_SIZE
                &&& chacha_decryption(e, key@) == Some(plaintext@)
            },
            Err(err) => (nonce@.len() != CHACHA_NONCE_SIZE || plaintext@.len() / 64 >= u32::MAX)
                && err is Encryption,
        },
{
    if nonce.len() != CHACHA_NONCE_SIZE {
        return Err(CASError::Encryption("Invalid nonce size for ChaCha20Poly1305".to_string()));
    }
    match chacha_encrypt_detached(key, nonce.as_slice(), plaintext) {
        Some((ciphertext, tag)) => Ok(EncryptedData { ciphertext, nonce, tag, salt: None }),
        None => Err(CASError::Encryption("ChaCha20Poly1305 encryption failed".to_string())),
    }
}

/// Encrypt with ChaCha20-Poly1305 under a fresh random nonce.
pub fn encrypt_chacha20poly1305(plaintext: &[u8], key: &[u8; 32]) -> (r: Result<
    EncryptedData,
    CASError,
>)
    ensures
        match r {
            Ok(e) => {
                &&& plaintext@.len() / 64 < u32::MAX
                &&& e.nonce@.len() == CHACHA_NONCE_SIZE
                &&& (e.ciphertext@, e.tag@) == chacha_seal(key@, e.nonce@, plaintext@)
                &&& e.salt is None
                &&& e.ciphertext@.len() == plaintext@.len()
                &&& e.tag@.len() == AUTH_TAG_SIZE
                &&& chacha_decryption(e, key@) == Some(plaintext@)
            },
            Err(err) => plaintext@.len() / 64 >= u32::MAX && err is Encryption,
        },
{
    let mut nonce_bytes = [0u8; 12];
    fill_random(&mut nonce_bytes);
    let nonce = vstd::slice::slice_to_vec(nonce_bytes.as_slice());
    encrypt_chacha20poly1305_with_nonce(plaintext, key, nonce)
}

/// Decrypt ChaCha20-Poly1305 data; fails for a nonce or tag of the wrong
/// size or a failed authentication.
pub fn decrypt_chacha20poly1305(encrypted: &EncryptedData, key: &[u8; 32]) -> (r: Result<
    Vec<u8>,
    CASError,
>)
    ensures
        match r {
            Ok(p) => chacha_decryption(*encrypted, key@) == Some(p@),
            Err(err) => chacha_decryption(*encrypted, key@) is None && err is Encryption,
        },
{
    if encrypted.nonce.len() != CHACHA_NONCE_SIZE {
        return Err(CASError::Encryption("Invalid nonce size for ChaCha20Poly1305".to_string()));
    }
    if encrypted.tag.len() != AUTH_TAG_SIZE {
        return Err(CASError::Encryption("Invalid tag size for ChaCha20Poly1305".to_string()));
    }
    match chacha_decrypt_detached(
        key,
        encrypted.nonce.as_slice(),
        encrypted.ciphertext.as_slice(),
        encrypted.tag.as_slice(),
    ) {
        Some(p) => Ok(p),
        None => Err(CASError::Encryption("ChaCha20Poly1305 decryption failed".to_string())),
    }
}

/// The raw Argon2 hash of a password with a salt, under the crate's default
/// parameters, as `PasswordHasher::hash_password` computes it from the salt's
/// B64 encoding; `None` where salt encoding or hashing fails.
pub uninterp spec fn argon2_default_hash(password: Seq<u8>, salt: Seq<u8>) -> Option<Seq<u8>>;

/// `argon2::Argon2::default().hash_password(password, &salt_string)` with
/// `salt_string = SaltString::encode_b64(salt)`, keeping the output hash
/// bytes. A salt under 3 bytes encodes to fewer than the 4 B64 characters a
/// salt string needs, and reading it back then panics, so such salts are
/// excluded. Claimed: the result is `argon2_default_hash` of the arguments.
#[verifier::external_body]
fn argon2_hash(password: &[u8], salt: &[u8]) -> (r: Option<Vec<u8>>)
    requires
        salt@.len() >= 3,
    ensures
        match r {
            Some(h) => argon2_default_hash(password@, salt@) == Some(h@),
            None => argon2_default_hash(password@, salt@) is None,
        },
{
    let salt_string = argon2::password_hash::SaltString::encode_b64(salt).ok()?;
    let hash = argon2::password_hash::PasswordHasher::hash_password(
        &argon2::Argon2::default(),
        password,
        &salt_string,
    ).ok()?;
    hash.hash.map(|o| o.as_bytes().to_vec())
}

/// What deriving a key from a password with a salt gives: the first 32 bytes
/// of its Argon2 hash, or `None` where hashing fails or gives fewer bytes.
pub open spec fn password_key(password: Seq<u8>, salt: Seq<u8>) -> Option<Seq<u8>> {
    match argon2_default_hash(password, salt) {
        Some(h) => if h.len() >= 32 {
            Some(h.take(32))
        } else {
            None
        },
        None => None,
    }
}

/// Derive a 32-byte key from a password with a given salt of at least 3
/// bytes; returns the key and the salt.
pub fn derive_key_from_password_with_salt(password: &[u8], salt: Vec<u8>) -> (r: Result<
    ([u8; 32], Vec<u8>),
    CASError,
>)
    requires
        salt@.len() >= 3,
    ensures
        match r {
            Ok(ks) => password_key(password@, salt@) == Some(ks.0@) && ks.1@ == salt@,
            Err(err) => password_key(password@, salt@) is None && err is Encryption,
        },
{
    let h = match argon2_hash(password, salt.as_slice()) {
        Some(h) => h,
        None => {
            return Err(CASError::Encryption("Key derivation failed".to_string()));
        },
    };
    if h.len() < 32 {
        return Err(CASError::Encryption("Derived key too short".to_string()));
    }
    let mut key = [0u8; 32];
    let mut i: usize = 0;
    while i < 32
        invariant
            i <= 32,
            h@.len() >= 32,
            forall|j: int| 0 <= j < i ==> key@[j] == h@[j],
        decreases 32 - i,
    {
        key[i] = h[i];
        i = i + 1;
    }
    assert(key@ =~= h@.take(32));
    Ok((key, salt))
}

/// Derive a 32-byte key from a password; with no salt given, a fresh random
/// 16-byte salt is drawn. A given salt has at least 3 bytes. Returns the key
/// and the salt used.
pub fn derive_key_from_password(password: &[u8], salt: Option<&[u8]>) -> (r: Result<
    ([u8; 32], Vec<u8>),
    CASError,
>)
    requires
        salt matches Some(s) ==> s@.len() >= 3,
    ensures
        match r {
            Ok(ks) => {
                &&& password_key(password@, ks.1@) == Some(ks.0@)
                &&& (match salt {
                    Some(s) => ks.1@ == s@,
                    None => ks.1@.len() == SALT_SIZE,
                })
            },
            Err(err) => err is Encryption && (salt matches Some(s) ==> password_key(
                password@,
                s@,
            ) is None),
        },
{
    let salt_bytes = match salt {
        Some(s) => vstd::slice::slice_to_vec(s),
        None => {
            let mut fresh = [0u8; 16];
            fill_random(&mut fresh);
            vstd::slice::slice_to_vec(fresh.as_slice())
        },
    };
    derive_key_from_password_with_salt(password, salt_bytes)
}

/// A random key of `N` bytes.
pub fn generate_random_key<const N: usize>() -> (r: [u8; N]) {
    let mut key: [u8; N] = vstd::array::array_fill_for_copy_types(0u8);
    fill_random(&mut key);
    key
}

/// `std::sync::atomic::compiler_fence` with sequential consistency: keeps the
/// compiler from moving memory writes across this point. Nothing is claimed.
#[verifier::external_body]
fn fence_writes() {
    std::sync::atomic::compiler_fence(std::sync::atomic::Ordering::SeqCst)
}

/// Overwrite sensitive data with zeros.
pub fn secure_wipe(data: &mut [u8])
    ensures
        final(data)@.len() == old(data)@.len(),
        forall|i: int| 0 <= i < final(data)@.len() ==> final(data)@[i] == 0,
{
    let n = data.len();
    let mut i: usize = 0;
    while i < n
        invariant
            n == data@.len(),
            n == old(data)@.len(),
            i <= n,
            forall|j: int| 0 <= j < i ==> data@[j] == 0,
        decreases n - i,
    {
        data[i] = 0;
        i = i + 1;
    }
    fence_writes();
}

/// The 32-byte key HKDF-SHA256 derives from input keying material `ikm` (no
/// salt) for the context `info`.
pub uninterp spec fn hkdf_sha256_key(ikm: Seq<u8>, info: Seq<u8>) -> Seq<u8>;

/// `hkdf::Hkdf::<sha2::Sha256>::new(None, ikm)` then `expand(info, &mut okm)`
/// into 32 bytes. Its source refuses only outputs longer than 255 hash
/// lengths, so a 32-byte expansion succeeds. Claimed: the key is
/// `hkdf_sha256_key` of the arguments.
#[verifier::external_body]
fn hkdf_sha256_expand32(ikm: &[u8; 32], info: &[u8]) -> (r: Option<[u8; 32]>)
    ensures
        r is Some,
        r.unwrap()@ == hkdf_sha256_key(ikm@, info@),
{
    let hk = hkdf::Hkdf::<sha2::Sha256>::new(None, ikm);
    let mut okm = [0u8; 32];
    match hk.expand(info, &mut okm) {
        Ok(()) => Some(okm),
        Err(_) => None,
    }
}

/// One `derive_key` call on a manager with master key `m0`, for a purpose:
/// the key is HKDF-SHA256 of the master key and the purpose, and the
/// master key after the call, `m1`, is unchanged.
pub open spec fn derive_step(m0: Seq<u8>, purpose: Seq<u8>, m1: Seq<u8>, key: Seq<u8>) -> bool {
    key == hkdf_sha256_key(m0, purpose) && m1 == m0
}

/// Derived keys do not depend on earlier calls: along any run of
/// `derive_key` calls on a manager over the master key `mk` (the master key
/// before call `i` being `masters[i]`), every call gives the HKDF-SHA256 key
/// of `mk` and its own purpose, whatever was derived or cached before.
pub proof fn derived_keys_ignore_history(
    mk: Seq<u8>,
    masters: Seq<Seq<u8>>,
    purposes: Seq<Seq<u8>>,
    keys: Seq<Seq<u8>>,
)
    requires
        masters.len() == purposes.len() + 1,
        keys.len() == purposes.len(),
        masters[0] == mk,
        forall|i: int|
            0 <= i < purposes.len() ==> #[trigger] derive_step(masters[i], purposes[i], masters[i + 1], keys[i]),
    ensures
        forall|i: int| 0 <= i < keys.len() ==> #[trigger] keys[i] == hkdf_sha256_key(mk, purposes[i]),
{
    assert forall|i: int| 0 <= i < masters.len() implies #[trigger] masters[i] == mk by {
        lemma_masters_kept(mk, masters, purposes, keys, i);
    }
    assert forall|i: int| 0 <= i < keys.len() implies #[trigger] keys[i] == hkdf_sha256_key(mk, purposes[i]) by {
        assert(derive_step(masters[i], purposes[i], masters[i + 1], keys[i]));
        lemma_masters_kept(mk, masters, purposes, keys, i);
    }
}

proof fn lemma_masters_kept(
    mk: Seq<u8>,
    masters: Seq<Seq<u8>>,
    purposes: Seq<Seq<u8>>,
    keys: Seq<Seq<u8>>,
    i: int,
)
    requires
        masters.len() == purposes.len() + 1,
        keys.len() == purposes.len(),
        masters[0] == mk,
        forall|k: int|
            0 <= k < purposes.len() ==> #[trigger] derive_step(masters[k], purposes[k], masters[k + 1], keys[k]),
        0 <= i < masters.len(),
    ensures
        masters[i] == mk,
    decreases i,
{
    if i > 0 {
        let k = i - 1;
        lemma_masters_kept(mk, masters, purposes, keys, k);
        assert(derive_step(masters[k], purposes[k], masters[k + 1], keys[k]));
        assert(k + 1 == i);
    }
}

/// Keys derived from a master key, one per purpose, with a cache.
pub struct KeyManager {
    master_key: [u8; 32],
    key_cache: Vec<(Vec<u8>, [u8; 32])>,
}

impl KeyManager {
    /// The cached keys, by purpose (as UTF-8 bytes).
    pub closed spec fn cache(&self) -> Map<Seq<u8>, Seq<u8>> {
        Map::new(
            |p: Seq<u8>| exists|i: int| 0 <= i < self.key_cache@.len() && self.key_cache@[i].0@ == p,
            |p: Seq<u8>|
                self.key_cache@[choose|i: int|
                    0 <= i < self.key_cache@.len() && self.key_cache@[i].0@ == p].1@,
        )
    }

    /// The master key.
    pub closed spec fn master(&self) -> Seq<u8> {
        self.master_key@
    }

    #[verifier::type_invariant]
    closed spec fn cache_consistent(&self) -> bool {
        &&& forall|i: int, j: int|
            0 <= i < j < self.key_cache@.len() ==> #[trigger] self.key_cache@[i].0@
                != #[trigger] self.key_cache@[j].0@
        &&& forall|i: int|
            0 <= i < self.key_cache@.len() ==> (#[trigger] self.key_cache@[i]).1@ == hkdf_sha256_key(
                self.master_key@,
                self.key_cache@[i].0@,
            )
    }

    /// A key manager with a random master key and no cached key.
    pub fn new() -> (r: KeyManager)
        ensures
            r.cache() == Map::<Seq<u8>, Seq<u8>>::empty(),
    {
        let r = KeyManager { master_key: generate_random_key::<32>(), key_cache: Vec::new() };
        assert(r.cache() =~= Map::<Seq<u8>, Seq<u8>>::empty());
        r
    }

    /// A key manager over an existing master key, with no cached key.
    pub fn from_master_key(master_key: [u8; 32]) -> (r: KeyManager)
        ensures
            r.master() == master_key@,
            r.cache() == Map::<Seq<u8>, Seq<u8>>::empty(),
    {
        let r = KeyManager { master_key, key_cache: Vec::new() };
        assert(r.cache() =~= Map::<Seq<u8>, Seq<u8>>::empty());
        r
    }

    /// The key for a purpose: HKDF-SHA256 of the master key with the purpose
    /// as context, from the cache when it was derived before.
    pub fn derive_key(&mut self, purpose: &str) -> (r: Result<[u8; 32], CASError>)
        ensures
            r matches Ok(k) && k@ == hkdf_sha256_key(old(self).master(), purpose.spec_bytes()),
            final(self).master() == old(self).master(),
            r matches Ok(k) && derive_step(old(self).master(), purpose.spec_bytes(), final(self).master(), k@),
            final(self).cache() == old(self).cache().insert(
                purpose.spec_bytes(),
                hkdf_sha256_key(old(self).master(), purpose.spec_bytes()),
            ),
    {
        proof {
            use_type_invariant(&*self);
        }
        let info = purpose.as_bytes();
        let ghost p = info@;
        let n = self.key_cache.len();
        let mut i: usize = 0;
        while i < n
            invariant
                n == self.key_cache@.len(),
                i <= n,
                info@ == p,
                p == purpose.spec_bytes(),
                self.key_cache@ == old(self).key_cache@,
                self.master_key == old(self).master_key,
                forall|j: int| 0 <= j < i ==> self.key_cache@[j].0@ != p,
            decreases n - i,
        {
            if bytes_eq(self.key_cache[i].0.as_slice(), info) {
                let key = self.key_cache[i].1;
                proof {
                    use_type_invariant(&*self);
                    assert(self.key_cache@[i as int].0@ == p);
                    let w = choose|w: int| 0 <= w < self.key_cache@.len() && self.key_cache@[w].0@ == p;
                    if w < i {
                    } else if w > i {
                        assert(self.key_cache@[i as int].0@ != self.key_cache@[w].0@);
                    }
                    assert(self.cache().insert(p, key@) =~= self.cache());
                }
                return Ok(key);
            }
            i = i + 1;
        }
        let okm = match hkdf_sha256_expand32(&self.master_key, info) {
            Some(k) => k,
            None => {
                return Err(CASError::Encryption("Key derivation failed".to_string()));
            },
        };
        let ghost old_cache = self.cache();
        let entry = (vstd::slice::slice_to_vec(info), okm);
        let mut cache = Vec::new();
        std::mem::swap(&mut cache, &mut self.key_cache);
        let ghost before = cache@;
        cache.push(entry);
        proof {
            assert(cache@.last().0@ == p);
            assert forall|a: int, b: int| 0 <= a < b < cache@.len() implies #[trigger] cache@[a].0@
                != #[trigger] cache@[b].0@ by {
                if b < before.len() {
                    assert(before[a].0@ != before[b].0@);
                }
            }
        }
        self.key_cache = cache;
        proof {
            assert forall|q: Seq<u8>| #[trigger] self.cache().contains_key(q) == old_cache.insert(p, okm@).contains_key(q) by {
                if q == p {
                    assert(self.key_cache@[n as int].0@ == p);
                } else if old_cache.contains_key(q) {
                    let w = choose|w: int| 0 <= w < before.len() && before[w].0@ == q;
                    assert(self.key_cache@[w].0@ == q);
                }
            }
            assert forall|q: Seq<u8>| #[trigger] self.cache().contains_key(q) implies self.cache()[q] == old_cache.insert(p, okm@)[q] by {
                let w = choose|w: int| 0 <= w < self.key_cache@.len() && self.key_cache@[w].0@ == q;
                if q != p {
                    let w2 = choose|w2: int| 0 <= w2 < before.len() && before[w2].0@ == q;
                    assert(self.key_cache@[w2] == before[w2]);
                }
            }
            assert(self.cache() =~= old_cache.insert(p, okm@));
        }
        Ok(okm)
    }

    /// Wipe the master key and every cached key, and empty the cache.
    pub fn clear(&mut self)
        ensures
            final(self).master() == Seq::new(32, |i: int| 0u8),
            final(self).cache() == Map::<Seq<u8>, Seq<u8>>::empty(),
    {
        let mut cache = Vec::new();
        std::mem::swap(&mut cache, &mut self.key_cache);
        let n = cache.len();
        let mut i: usize = 0;
        while i < n
            invariant
                n == cache@.len(),
                i <= n,
            decreases n - i,
        {
            secure_wipe(&mut cache[i].1);
            i = i + 1;
        }
        let mut master = self.master_key;
        secure_wipe(&mut master);
        proof {
            assert(master@ =~= Seq::new(32, |i: int| 0u8));
        }
        self.master_key = master;
        proof {
            assert(self.cache() =~= Map::<Seq<u8>, Seq<u8>>::empty());
        }
    }
}

/// Whether two byte strings are equal.
pub(crate) fn bytes_eq(a: &[u8], b: &[u8]) -> (r: bool)
    ensures
        r == (a@ == b@),
{
    if a.len() != b.len() {
        return false;
    }
    let mut i: usize = 0;
    while i < a.len()
        invariant
            a@.len() == b@.len(),
            i <= a@.len(),
            forall|j: int| 0 <= j < i ==> a@[j] == b@[j],
        decreases a@.len() - i,
    {
        if a[i] != b[i] {
            return false;
        }
        i = i + 1;
    }
    assert(a@ =~= b@);
    true
}

} // verus!
