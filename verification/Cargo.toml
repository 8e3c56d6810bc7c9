[package]
name = "tmux-layout"
version = "0.1.0"
edition = "2021"
publish = false

[dependencies]
shellwords = "1"
shellexpand = "3"
serde = { version = "1", features = ["derive"] }
serde_yaml = "0.9"
toml = "0.5"
clap = "3"
colored = "2"
dirs = "5"
