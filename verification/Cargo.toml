[package]
name = "stock_tracker"
version = "0.1.0"
edition = "2021"
publish = false

[dependencies]
chrono = { version = "=0.4.45", features = ["serde"] }
env_logger = "=0.10.2"
jsonwebtoken = "=9.3.1"
log = "=0.4.34"
reqwest = { version = "=0.11.27", features = ["json"] }
scylla = "=0.10.2"
serde = { version = "=1.0.229", features = ["derive"] }
serde_json = { version = "=1.0.154", features = ["preserve_order"] }
tokio = { version = "=1.54.1", features = ["full"] }
warp = "=0.3.7"
