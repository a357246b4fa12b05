[package]
name = "vn_engine"
version = "0.1.0"
edition = "2021"
publish = false

[dependencies]
serde = { version = "1", features = ["derive"] }
toml = "0.8"
tokio = { version = "1", features = ["sync", "rt", "macros"] }
lazy_static = "1"
rodio = { version = "0.20", default-features = false, features = ["wav", "vorbis"] }
ffmpeg-next = "7"
