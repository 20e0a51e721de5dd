[package]
name = "oatbar"
version = "0.3.0"
edition = "2021"
publish = false

[dependencies]
regex = "1"
anyhow = "1"
serde = { version = "1", features = ["derive"] }
serde_json = "1"
toml = "*"
dirs = "*"
crossbeam-channel = "*"
clap = { version = "4", features = ["derive"] }
tracing = "*"
tracing-subscriber = "*"
bytesize = "*"
chrono = "*"
