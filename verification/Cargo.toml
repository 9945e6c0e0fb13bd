[package]
name = "vfv"
version = "0.1.0"
edition = "2021"
publish = false

[dependencies]
ignore = "*"
nucleo-matcher = "*"
clap = { version = "*", features = ["derive"] }
clap_mangen = "*"
crossterm = "*"
directories = "*"
indicatif = "*"
ratatui = "*"
serde = { version = "*", features = ["derive"] }
serde_json = "*"
syntect = "*"
toml = "*"

[dev-dependencies]
tempfile = "*"
