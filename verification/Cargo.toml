[package]
name = "nft_aggregator"
version = "0.1.0"
edition = "2021"
publish = false

[dependencies]
ahash = "0.8"
anyhow = "1"
bigdecimal = "0.4"
chrono = "0.4"
hex = "0.4"
jsonpath-rust = "0.7"
rayon = "1"
serde = { version = "1", features = ["derive"] }
serde_json = "1"
sha2 = "0.10"
sha3 = "0.10"
