[package]
name = "rust_labs"
version = "0.1.0"
edition = "2021"
publish = false

[dependencies]
regex = "=1.13.1"
rand = "=0.8.8"
actix = "=0.13.5"
actix-broker = "=0.4.4"
actix-rt = "=2.15.0"
actix-web = { version = "=4.18.1", default-features = false, features = ["macros", "ws"] }
actix-web-actors = "=4.3.1"
awc = { version = "=3.11.0", default-features = false }
tokio = { version = "=1.54.1", features = ["full"] }
env_logger = { version = "=0.10.2", default-features = false }
log = "=0.4.35"
serde = { version = "=1.0.229", features = ["derive"] }
serde_json = "=1.0.154"
webrtc = "=0.9.0"
bincode = { version = "=2.0.1", features = ["derive"] }
ndarray = "=0.15.6"
