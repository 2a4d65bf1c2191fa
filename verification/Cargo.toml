[package]
name = "ghost_core"
version = "0.1.0"
edition = "2021"
publish = false

[dependencies]
blake2 = "0.10"
serde = { version = "1", features = ["derive"] }
serde_json = "1"
serde_bytes = "0.11"
