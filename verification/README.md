# prism

Storage and coordination primitives for a swarm of agents that keep working
offline, with their behaviour stated in contracts and proved with Verus.

## Layout

- `src/` — the verified library.
  - `crdt/` — conflict-free replicated data types (grow-only and PN counters,
    grow-only and two-phase sets, LWW and multi-value registers, OR-set, RGA
    sequence, vector clocks), hybrid timestamps, CRDT metadata and the
    anti-entropy synchronization state machine. Each merge is proved
    idempotent, commutative and associative where the type allows it.
  - `cas/` — content-addressed storage: the block store (BLAKE3 keys,
    deduplication by reference count, Zstandard compression, checksums on
    read; blocks are held in memory only, with no on-disk database behind
    them), Merkle trees with inclusion proofs, integrity checks and
    majority-vote repair, compression with Zstandard/LZ4/Snappy and
    entropy-based level choice, AES-256-GCM and ChaCha20-Poly1305
    encryption, Argon2 and HKDF key derivation.
  - `agent/` — agent identities, roles and statuses, errors with their
    messages, and the decisions of the messaging layer (what to do with an
    incoming message, what follows a handler).
  - `network.rs` — mesh configuration, the table of known peers and what
    each swarm event and command leads to.
  - `consensus.rs`, `grahmos.rs` — the plain data of consensus and of host
    integration.
  - `ident.rs`, `text.rs` — UUID identities; decimal and hexadecimal text.
- `app/` — the runtime around the library: the libp2p mesh, the async
  messaging manager, host and consensus interfaces, serde copies of library
  types for the wire, and floating-point ratios of the library's counters.
- `tests/` — tests of the library.

Calls into outside crates (BLAKE3, Zstandard, LZ4, Snappy, AES-GCM,
ChaCha20-Poly1305, Argon2, HKDF, rand, uuid, chrono, std time) go through
small trusted wrappers whose contracts state what the crates document.
