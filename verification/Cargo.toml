[package]
name = "szmelc_player"
version = "0.1.0"
edition = "2021"
publish = false

[dependencies]
anyhow = "*"
colored = "*"
ffmpeg-next = "*"
image = { version = "*", default-features = false }
pbr = "*"
structopt = "*"
tempfile = "*"
