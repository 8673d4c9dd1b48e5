[package]
name = "outl-tui"
version = "0.1.0"
edition = "2021"
publish = false

[dependencies]
anyhow = "1"
chrono = "0.4"
crossterm = "0.28"
open = "5"
ratatui = "0.29"
serde_json = "1"
toml = "0.8"
tracing = "0.1"
tracing-log = "0.2"
tracing-subscriber = { version = "0.3", features = ["env-filter"] }
unicode-width = "0.2"
walkdir = "2"

[dev-dependencies]
tempfile = "3"
