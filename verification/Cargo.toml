[package]
name = "replicator"
version = "0.2.0"
edition = "2021"
publish = false

[dependencies]
serde = { version = "1", features = ["derive"] }
serde_json = "1"
base64 = "0.22"
anyhow = "1"
log = "0.4"
env_logger = "0.11"
thiserror = "1"
tungstenite = "0.24"
