[package]
name = "rpc_fetch"
version = "0.1.0"
edition = "2021"
publish = false

[dependencies]
ethers = { version = "2.0", default-features = false }
governor = "0.5"
tokio = { version = "1", features = ["sync", "time", "rt"] }
tokio-retry = "0.3"
