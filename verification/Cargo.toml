[package]
name = "atlas_txn_sender"
version = "0.1.0"
edition = "2021"
publish = false

[dependencies]
anyhow = "1"
base64 = "0.21"
bincode = "1.3"
cadence = "0.29"
cadence-macros = "0.29"
dashmap = "5.5"
figment = { version = "0.10", features = ["env"] }
futures = { version = "0.3", default-features = false, features = ["std"] }
indexmap = "2"
jsonrpsee = { version = "0.20", features = ["server", "macros"] }
rand = "0.8"
serde = { version = "1", features = ["derive"] }
solana-program-runtime = "~1.17"
solana-sdk = "~1.17"
tikv-jemallocator = "0.5"
tokio = { version = "1", features = ["full"] }
tonic = { version = "0.10", default-features = false, features = ["codegen"] }
tower = "0.4"
tracing = "0.1"
tracing-subscriber = { version = "0.3", features = ["env-filter", "json"] }
