[package]
name = "sidecar_supervisor"
version = "0.1.0"
edition = "2021"
publish = false

[dependencies]
anyhow = "*"
futures = "*"
serde_json = "*"
tokio = { version = "*", features = ["rt-multi-thread", "macros", "sync", "time", "io-util"] }
tokio-tungstenite = "*"
url = "*"
uuid = { version = "*", features = ["v4"] }
