[package]
name = "ip_chat"
version = "0.1.0"
edition = "2021"
publish = false

[dependencies]
chrono = "*"
hostname = "*"
uuid = { version = "*", features = ["v4"] }
mdns-sd = "*"
tokio = { version = "*", features = ["full"] }
local-ip-address = "*"
log = "*"
env_logger = "*"

[dev-dependencies]
serde_json = "*"
