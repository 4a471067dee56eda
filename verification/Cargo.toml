[package]
name = "caf"
version = "0.1.0"
edition = "2021"
publish = false

[dependencies]
libp2p = { version = "0.53", features = ["tokio", "tcp", "noise", "yamux", "kad", "identify", "request-response", "cbor", "macros"] }
futures = "0.3"
tokio = { version = "1", features = ["rt-multi-thread", "macros"] }
clap = { version = "4", features = ["derive"] }
serde = { version = "1", features = ["derive"] }
serde_json = "1"
fs2 = "0.4"
