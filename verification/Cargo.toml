[package]
name = "solana_filter"
version = "0.1.0"
edition = "2021"
publish = false

[dependencies]
anyhow = "=1.0.104"
bs58 = "=0.5.1"
prost = "0.13"
serde = { version = "=1.0.229", features = ["derive"] }
serde_json = "=1.0.154"
serde_qs = "=1.1.3"
substreams = "0.6"
substreams-entity-change = "=2.0.0"
substreams-solana = "0.14"
