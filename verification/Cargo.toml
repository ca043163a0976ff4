[package]
name = "sonic_sync"
version = "0.1.0"
edition = "2021"
publish = false

[dependencies]
uuid = { version = "*", features = ["v4"] }
tokio = { version = "*", features = ["full"] }
axum = { version = "*", features = ["ws"] }
futures = "*"
dashmap = "*"
tokio-tungstenite = "*"
url = "*"
tower = { version = "*", features = ["util"] }
tower-http = { version = "*", features = ["fs"] }
async-stream = "*"
