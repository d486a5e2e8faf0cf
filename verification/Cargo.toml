[package]
name = "ffmpeg_cmd"
version = "0.1.0"
edition = "2021"
publish = false

[dependencies]
anyhow = "=1.0.104"
flate2 = "=1.1.10"
nix = { version = "=0.26.4", features = ["fs"] }
rand = "=0.10.3"
reqwest = { version = "=0.13.5", default-features = false }
tokio = { version = "=1.53.2", features = ["rt", "sync"] }
winapi = "=0.2.8"
kernel32-sys = "=0.2.2"
