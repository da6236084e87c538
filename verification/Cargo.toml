[package]
name = "teleport_indexer"
version = "0.1.0"
edition = "2021"
publish = false

[dependencies]
cuid = "=2.0.4"
eyre = "*"
futures-util = "*"
log = "*"
serde = { version = "*", features = ["derive"] }
serde_json = "*"
tokio = { version = "*", features = ["full"] }
tokio-postgres = "*"
