[package]
name = "network_ids_core"
version = "0.1.0"
edition = "2021"
publish = false

[dependencies]
rand = "0.8"
uuid = { version = "1", features = ["v4"] }
tokio = { version = "1", features = ["sync", "rt", "rt-multi-thread", "time", "macros"] }
tokio-util = "0.7"
parking_lot = "0.12"
anyhow = "1"
serde = { version = "1", features = ["derive"] }
serde_json = "1"
sysinfo = "*"
candle-core = "*"
candle-nn = "*"
