[package]
name = "silo_core"
version = "0.1.0"
edition = "2021"
publish = false

[dependencies]
blake3 = "*"
globset = "*"
serde = { version = "*", features = ["derive"] }
serde_json = "*"
thiserror = "*"
tokio = { version = "*", features = ["full"] }
