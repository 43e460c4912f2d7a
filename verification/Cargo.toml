[package]
name = "discord_stream_rs"
version = "0.1.0"
edition = "2021"
publish = false

[dependencies]
davey = "=0.2.0"
tokio = { version = "=1.54.1", features = ["full"] }
serde = { version = "=1.0.229", features = ["derive"] }
serde_json = "=1.0.154"
thiserror = "=2.0.21"
tracing = "=0.1.44"
bytes = "=1.12.1"
futures-util = "=0.3.34"
tokio-tungstenite = "=0.30.0"
ffmpeg-next = "=9.0.0"
webrtc = "=0.21.1"
rtc = { version = "=0.21.1", default-features = false }
