[package]
name = "xdg_desktop_portal_screencast"
version = "0.1.0"
edition = "2021"
publish = false

[dependencies]
zbus = "*"
tokio = { version = "*", features = ["full"] }
futures-util = "*"
log = "*"
env_logger = "*"
rust-ini = "*"
freedesktop-icons = "*"

[dev-dependencies]
serde_json = "*"
