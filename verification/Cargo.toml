[package]
name = "hocuspocus-rs-ws"
version = "0.1.0"
edition = "2021"
publish = false

[dependencies]
yrs = { version = "=0.28.0", features = ["sync"] }
dashmap = "=6.2.1"
serde = { version = "=1.0.229", features = ["derive"] }
serde_json = "=1.0.154"
uuid = { version = "=1.29.0", features = ["v4"] }
tokio = { version = "=1.54.1", features = ["full"] }
async-trait = "=0.1.92"
axum = { version = "=0.8.9", features = ["ws"] }
futures = "=0.3.34"
futures-util = "=0.3.34"
tokio-util = { version = "=0.7.20", features = ["rt"] }
tracing = "=0.1.44"
tracing-subscriber = { version = "=0.3.23", features = ["env-filter"] }
url = "=2.5.8"
thiserror = "=2.0.21"
anyhow = "=1.0.104"
