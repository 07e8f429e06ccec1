[package]
name = "substrate_indexer"
version = "0.1.0"
edition = "2021"
publish = false

[dependencies]
uuid = { version = "*", features = ["v4"] }
chrono = "*"
rand = "*"
serde_json = "*"
tokio = { version = "*", features = ["full"] }
