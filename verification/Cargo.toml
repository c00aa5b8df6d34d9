[package]
name = "relay_core"
version = "0.1.0"
edition = "2021"
publish = false

[dependencies]
dashmap = "6.1"
lru = "0.16"
parking_lot = "0.12"
tokio = { version = "1", features = ["sync", "time", "io-util", "rt"] }
tracing = "0.1"
