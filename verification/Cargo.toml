[package]
name = "metastore"
version = "0.1.0"
edition = "2021"
publish = false

[dependencies]
anyhow = "1"
async-raft = "0.6"
prost = "0.13"
serde = { version = "1", features = ["derive"] }
serde_json = "1"
thiserror = "1"
tokio = { version = "1", features = ["full"] }
tonic = "0.12"
tracing = "0.1"
