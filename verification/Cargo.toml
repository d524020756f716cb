[package]
name = "bridge_core"
version = "0.1.0"
edition = "2021"
publish = false

[dependencies]
bitcoin = "0.31"
bitcoincore-rpc = "0.18"
secp256k1 = "0.28"
serde = { version = "1", features = ["derive"] }
thiserror = "1"
