[package]
name = "llamacppdesk"
version = "0.1.0"
edition = "2021"
publish = false

[dependencies]
reqwest = { version = "0.12", features = ["blocking", "json"] }
serde = { version = "1", features = ["derive"] }
serde_json = "1"
parking_lot = "0.12"
tokio = { version = "1", features = ["sync", "rt-multi-thread", "net", "time"] }
axum = "0.8"
futures-util = "0.3"
tokio-stream = { version = "0.1", features = ["sync"] }
