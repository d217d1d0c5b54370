[package]
name = "kinewright_media"
version = "0.1.0"
edition = "2021"
publish = false

[dependencies]
crossbeam-channel = "0.5"
ffmpeg-next = "*"
half = "2"
serde_json = "1"
