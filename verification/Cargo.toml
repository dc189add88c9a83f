[package]
name = "needle"
version = "0.1.0"
edition = "2021"
publish = false

[dependencies]
bincode = "1"
chromaprint-rust = "*"
clap = { version = "3", features = ["derive"] }
ffmpeg-next = "*"
infer = "*"
md5 = "0.7"
rayon = "1"
serde = { version = "1", features = ["derive"] }
serde_json = "1"
thiserror = "1"
tracing = "0.1"
tracing-subscriber = "0.3"
