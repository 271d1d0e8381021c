[package]
name = "messenger_backend"
version = "0.1.0"
edition = "2021"
publish = false

[dependencies]
anyhow = "=1.0.104"
async-trait = "=0.1.92"
axum = "=0.7.9"
bincode = "=1.3.3"
bip39 = { version = "=2.2.2", features = ["rand"] }
bs58 = "=0.5.1"
chacha20poly1305 = "=0.10.1"
ed25519-dalek = { version = "=2.2.0", features = ["rand_core"] }
futures = "=0.3.34"
hex = "=0.4.3"
hkdf = "=0.12.4"
libp2p = { version = "=0.54.1", default-features = false, features = ["tokio", "tcp", "quic", "noise", "yamux", "kad", "relay", "request-response", "identify", "ping", "macros", "ed25519"] }
prost = "=0.13.5"
rand = "=0.8.8"
rand_core = { version = "=0.6.4", features = ["getrandom"] }
reqwest = { version = "=0.12.28", default-features = false, features = ["json"] }
rusqlite = { version = "=0.31.0", features = ["bundled"] }
serde = { version = "=1.0.229", features = ["derive"] }
serde_json = "=1.0.154"
sha2 = "=0.10.9"
thiserror = "=1.0.69"
tokio = { version = "=1.54.1", features = ["rt-multi-thread", "macros", "sync", "time", "net", "io-std", "io-util", "signal"] }
tower-http = { version = "=0.5.2", features = ["cors"] }
tracing = "=0.1.44"
tracing-subscriber = { version = "=0.3.23", features = ["env-filter"] }
x25519-dalek = { version = "=2.0.1", features = ["static_secrets"] }
zeroize = "=1.9.1"
