[package]
name = "boppo_core"
version = "0.1.0"
edition = "2021"
publish = false

[dependencies]
rand = "0.9"
rgb = "0.8"
serde = { version = "1", features = ["derive"] }
serde_json = "1"
tokio = { version = "1", features = ["sync"] }
futures = "0.3"
log = "0.4"
embassy-time = "0.4"
edge-executor = "0.4"
