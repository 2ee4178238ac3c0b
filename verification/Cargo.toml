[package]
name = "daw_reabs"
version = "0.1.0"
edition = "2021"
publish = false

[dependencies]
anyhow = "1"
clap = { version = "4", features = ["derive"] }
serde = { version = "1", features = ["derive"] }
serde_json = "1"
hound = "3.5"
crossterm = "0.28"
ratatui = "0.29"
cpal = "0.15"
crossbeam-channel = "0.5"

[dev-dependencies]
tempfile = "3"
