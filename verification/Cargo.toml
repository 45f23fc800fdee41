[package]
name = "tppocr"
version = "0.1.0"
edition = "2021"
publish = false

[dependencies]
anyhow = "*"
chrono = "*"
clap = "2"
ffmpeg-next = "*"
font-kit = "*"
image = "0.23"
lazy_static = "*"
nix = "0.26"
raqote = "*"
serde = { version = "*", features = ["derive"] }
signal-hook = "*"
slog = "*"
slog-async = "*"
slog-scope = "*"
slog-term = "*"
tesseract-sys = "*"
toml = "*"
