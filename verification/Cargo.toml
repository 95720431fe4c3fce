[package]
name = "glyphcast"
version = "0.1.0"
edition = "2021"
publish = false

[dependencies]
image = { version = "0.25", default-features = false, features = ["png", "jpeg", "gif", "bmp"] }
termcolor = "1"
crossterm = "*"
terminal_size = "*"
ffmpeg-next = "*"
