[package]
name = "demo_webrtc"
version = "0.1.0"
edition = "2021"
publish = false

[dependencies]
anyhow = "=1.0.104"
base64 = "=0.13.1"
hyper = { version = "=0.14.32", features = ["full"] }
tokio = { version = "=1.53.2", features = ["macros", "rt-multi-thread", "signal", "sync", "time"] }
webrtc = "=0.14.0"
