[package]
name = "e621_downloader"
version = "0.1.0"
edition = "2021"
publish = false

[dependencies]
failure = "0.1"
pbr = "1"
serde = { version = "1", features = ["derive"] }
serde_json = "1"
