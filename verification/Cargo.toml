[package]
name = "toki_chain"
version = "0.1.0"
edition = "2021"
publish = false

[dependencies]
sha2 = "0.10"
hex = "0.4"
ed25519-dalek = "2"
rand = "0.8"
chrono = "0.4"
serde = { version = "1", features = ["derive"] }
serde_json = "1"
tokio = { version = "1", features = ["rt-multi-thread", "macros"] }
libp2p = { version = "0.53", default-features = false, features = ["gossipsub", "tcp", "tokio", "noise", "yamux", "macros"] }
