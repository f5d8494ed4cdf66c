[package]
name = "raft-kv"
version = "0.1.0"
edition = "2021"
publish = false

[dependencies]
anyhow = "1"
axum = "0.8"
bincode = "1.3"
clap = { version = "4", features = ["derive", "env"] }
dashmap = "6"
prost = "0.13"
serde = { version = "1", features = ["derive"] }
tokio = { version = "1", features = ["full"] }
tonic = "0.12"
