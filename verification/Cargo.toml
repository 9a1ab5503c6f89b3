[package]
name = "segmux"
version = "0.1.0"
edition = "2021"
publish = false

[dependencies]
ffmpeg-next = "*"
time = { version = "0.3", features = ["formatting", "parsing"] }
