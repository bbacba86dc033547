[package]
name = "rust_server_for_multiplayer"
version = "0.1.0"
edition = "2021"
publish = false

[dependencies]
anyhow = "=1.0.104"
axum = { version = "=0.7.9", features = ["ws"] }
base64 = "=0.22.1"
chrono = { version = "=0.4.45", default-features = false, features = ["clock"] }
futures-util = "=0.3.34"
serde = { version = "=1.0.229", features = ["derive"] }
serde_json = "=1.0.145"
tokio = { version = "=1.53.2", features = ["sync", "rt-multi-thread", "macros", "net", "time"] }
toml = "=0.8.23"
tracing = "=0.1.44"
webrtc = "=0.11.0"
