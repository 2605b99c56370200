[package]
name = "mcpg-tunnel-proto"
version = "0.1.0"
edition = "2021"
publish = false

[dependencies]
bytes = "=1.12.1"
futures = "=0.3.34"
serde = { version = "=1.0.229", features = ["derive"] }
serde_json = "=1.0.154"
thiserror = "=2.0.21"
tokio = { version = "=1.54.1", features = ["io-util", "rt", "sync", "time"] }
tokio-util = { version = "=0.7.20", features = ["codec", "compat"] }
yamux = "=0.13.10"
