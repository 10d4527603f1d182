[package]
name = "prism"
version = "0.1.0"
edition = "2021"
publish = false

[dependencies]
uuid = { version = "1", features = ["v4", "serde"] }
blake3 = "1"
zstd = "0.13"
lz4_flex = "0.11"
snap = "1"
aes-gcm = "0.10"
chacha20poly1305 = "0.10"
argon2 = "0.5"
hkdf = "0.12"
sha2 = "0.10"
rand = "0.8"
chrono = { version = "0.4", features = ["serde"] }
serde = { version = "1", features = ["derive"] }
serde_json = "1"
bincode = "1"
rmp-serde = "1"
tokio = { version = "1", features = ["sync", "rt", "rt-multi-thread", "macros", "time"] }
tracing = "0.1"
thiserror = "1"
async-trait = "0.1"
futures = "0.3"
libp2p = { version = "0.53", default-features = false, features = ["tokio", "gossipsub", "mdns", "kad", "identify", "noise", "ping", "tcp", "yamux", "macros"] }
