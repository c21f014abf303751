[package]
name = "skywidget"
version = "0.1.0"
edition = "2021"
publish = false

[dependencies]
chrono = "0.4"
uuid = { version = "1", features = ["v4"] }
serde = { version = "1", features = ["derive"] }
serde_json = "1"
mdns-sd = "0.11"
reqwest = { version = "0.11", default-features = false, features = ["json"] }
tokio = { version = "1", features = ["rt-multi-thread", "macros", "time", "sync"] }
warp = { version = "0.3", default-features = false }
sysinfo = "0.31"
local-ip-address = "0.6"
log = "0.4"
env_logger = { version = "0.11", default-features = false }
