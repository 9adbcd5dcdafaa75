[package]
name = "bacnet_sim"
version = "0.1.0"
edition = "2021"
publish = false

[dependencies]
bytes = "1"
rustc-hash = "*"
tokio = { version = "1", features = ["full"] }
tracing = "*"
tracing-subscriber = { version = "*", features = ["env-filter", "json"] }
anyhow = "*"
axum = "*"
tower-http = { version = "*", features = ["cors", "trace"] }
serde = { version = "1", features = ["derive"] }
serde_json = "*"
toml = "*"
prometheus = "*"
rand = "*"
rayon = "*"
rhai = "*"
notify = "*"
dashmap = "*"
parking_lot = "*"
futures-util = { version = "0.3", features = ["sink"] }
tokio-tungstenite = "*"
