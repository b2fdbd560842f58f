[package]
name = "lunchbox"
version = "0.1.0"
edition = "2021"
publish = false

[dependencies]
anyhow = "1"
clap = { version = "4", features = ["derive"] }
color-eyre = "0.6"
crossterm = "0.28"
fs4 = "*"
hex = "0.4"
ratatui = "0.29"
serde = { version = "1", features = ["derive"] }
serde_json = "1"
sha2 = "0.10"
signal-hook = "0.3"
time = { version = "0.3", features = ["macros", "formatting"] }
toml = "0.8"
toml_edit = "0.22"

[dev-dependencies]
tempfile = "3"
