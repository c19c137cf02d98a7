[package]
name = "drawguess"
version = "0.1.0"
edition = "2021"
publish = false

[dependencies]
uuid = { version = "1", features = ["v4"] }
rand = "0.8"
tokio = { version = "1", features = ["full"] }
warp = "0.3"
futures = "0.3"
futures-util = "0.3"
tokio-stream = "0.1"
serde = { version = "1", features = ["derive"] }
serde_json = "1"
base64 = "0.13"
log = "0.4"
pretty_env_logger = "0.5"
http = "0.2"
