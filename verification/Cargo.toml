[package]
name = "kinetic_atlas"
version = "0.1.0"
edition = "2021"
publish = false

[dependencies]
libp2p = { version = "0.53", features = ["tokio", "tcp", "noise", "yamux", "dns", "kad", "request-response", "cbor", "macros"] }
serde = { version = "1", features = ["derive"] }
serde_json = "1"
serde_bytes = "0.11"
bytes = "1"
thiserror = "1"
tokio = { version = "1", features = ["full"] }
axum = "0.7"
reqwest = { version = "0.12", default-features = false, features = ["json", "stream", "rustls-tls"] }
hickory-resolver = "0.24"
dirs = "5"
tracing = "0.1"
tracing-subscriber = "0.3"
anyhow = "1"
