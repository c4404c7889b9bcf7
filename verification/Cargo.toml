[package]
name = "nym_rpc"
version = "0.1.0"
edition = "2021"
publish = false

[dependencies]
url = "=2.5.8"
bs58 = "=0.5.1"
serde_json = "=1.0.154"
anyhow = "=1.0.104"
tokio = { version = "=1.54.1", features = ["full"] }
tokio-util = { version = "=0.7.20", features = ["codec"] }
tokio-stream = "=0.1.19"
axum = "=0.7.9"
reqwest = { version = "=0.12.28", default-features = false, features = ["rustls-tls"] }
tower = "=0.5.3"
tower-http = { version = "=0.6.11", features = ["cors"] }
clap = { version = "=4.6.7", features = ["derive"] }
tracing = "=0.1.44"
bincode = "=1.3.3"
uuid = { version = "=1.29.0", features = ["v4"] }
dashmap = "=6.2.1"
chrono = "=0.4.45"
