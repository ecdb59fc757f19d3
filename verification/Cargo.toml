[package]
name = "ostt"
version = "0.1.0"
edition = "2021"
publish = false

[dependencies]
anyhow = "*"
cpal = "*"
crossterm = "*"
dirs = "*"
hound = "*"
ratatui = "*"
rustfft = "*"
serde = { version = "*", features = ["derive"] }
signal-hook = "*"
toml = "*"
