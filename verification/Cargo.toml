[package]
name = "websocket_adapter"
version = "0.1.0"
edition = "2021"
publish = false

[dependencies]
anyhow = "1"
crossbeam-channel = "0.5"
futures = "0.3"
futures-util = "0.3"
log = "0.4"
serde = "1"
serde_json = { version = "1", features = ["raw_value"] }
thiserror = "1"
tokio = { version = "1", features = ["rt", "rt-multi-thread", "net"] }
tokio-tungstenite = "*"
url = "2"
uuid = { version = "1", features = ["v4"] }
