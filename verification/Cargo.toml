[package]
name = "gpgui"
version = "0.1.0"
edition = "2021"
publish = false

[dependencies]
url = "2"
serde_json = "1"
uuid = { version = "1", features = ["v4"] }
serde = { version = "1", features = ["derive"] }
tokio = { version = "1", features = ["process", "sync", "rt", "rt-multi-thread", "macros"] }
tokio-tungstenite = "*"
dirs = "5"
log = "0.4"
env_logger = "*"
