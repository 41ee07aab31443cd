[package]
name = "hypernote"
version = "0.1.0"
edition = "2021"
publish = false

[dependencies]
tokio = { version = "*", features = ["sync", "net", "rt-multi-thread", "macros", "time"] }
tokio-tungstenite = "*"
futures-util = "*"
mdns-sd = "*"
uuid = { version = "*", features = ["v4"] }
serde = { version = "*", features = ["derive"] }
serde_json = "*"
