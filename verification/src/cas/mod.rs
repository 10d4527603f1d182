//! Content-addressed storage helpers: integrity checks and Merkle proofs,
//! compression and encryption of blocks.
use vstd::prelude::*;

pub mod bignum;
pub mod compression;
pub mod encryption;
pub mod integrity;
pub mod store;

verus! {

/// Errors of content-addressed storage operations.
#[derive(Debug, Clone, PartialEq, Eq)]
pub enum CASError {
    /// No block is stored under this hash.
    BlockNotFound { hash: String },
    /// Stored data was found corrupted.
    Corruption { details: String },
    /// The store has no room left.
    StorageFull { used_bytes: u64, capacity_bytes: u64 },
    /// The block index is inconsistent.
    IndexCorruption { reason: String },
    /// A block's checksum did not match.
    IntegrityCheckFailed { expected: String, actual: String },
    /// The underlying database failed, with its message.
    Database(String),
    /// Compression or decompression failed.
    Compression(String),
    /// Encryption, decryption or key derivation failed.
    Encryption(String),
    /// An I/O operation failed, with its message.
    Io(String),
}

/// Result of a content-addressed storage operation.
pub type CASResult<T> = Result<T, CASError>;

} // verus!
