[package]
name = "siff"
version = "0.1.0"
edition = "2021"
publish = false

[dependencies]
anyhow = "*"
clap = { version = "*", features = ["derive"] }
crossterm = "*"
dirs = "*"
ratatui = "*"
serde = { version = "*", features = ["derive"] }
serde_json = "*"
tempfile = "*"
tiktoken-rs = "*"
tokio = { version = "*", features = ["full"] }
tokio-util = "*"
walkdir = "*"
