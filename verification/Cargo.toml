[package]
name = "infiniloom_cli"
version = "0.1.0"
edition = "2021"
publish = false

[dependencies]
glob = "0.3"
regex = "1"
serde = { version = "1", features = ["derive"] }
serde_json = "1"
serde_yaml = "0.9"
toml = "0.8"
clap = { version = "4", features = ["derive"] }
colored = "2"
humansize = "2"
