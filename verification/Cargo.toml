[package]
name = "sticker_process"
version = "0.1.0"
edition = "2021"
publish = false

[dependencies]
percent-encoding = "2"
chrono = "0.4"
base64 = "0.22"
serde = { version = "1", features = ["derive"] }
serde_json = "1"
toml = "0.8"
ffmpeg-sidecar = "2"
tokio = { version = "1", features = ["rt-multi-thread", "macros", "time", "sync"] }
log = "0.4"
thiserror = "2"
