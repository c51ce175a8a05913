[package]
name = "db3_node"
version = "0.1.0"
edition = "2021"
publish = false

[dependencies]
hex = "0.4"
arc-swap = "1"
tokio = { version = "1", features = ["rt", "time", "sync"] }
tracing = "0.1"
tonic = { version = "0.9", default-features = false }
rand = "0.8"
ethers = { version = "2", default-features = false }
