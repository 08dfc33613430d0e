[package]
name = "torii_indexing"
version = "0.1.0"
edition = "2021"
publish = false

[dependencies]
async-trait = "0.1"
http = "0.2"
hyper = "0.14"
serde = { version = "1", features = ["derive"] }
serde_json = "1"
sha2 = "0.10"
starknet = "*"
starknet-crypto = "*"
thiserror = "1"
tokio = { version = "1", features = ["sync", "time"] }
tracing = "0.1"
