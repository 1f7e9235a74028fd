[package]
name = "lyrics_next"
version = "0.1.0"
edition = "2021"
publish = false

[dependencies]
base64 = "=0.23.1"
sanitize-filename = "=0.6.0"
serde = { version = "=1.0.229", features = ["derive"] }
serde_json = "=1.0.151"
toml = "=1.1.7"
dirs = "=7.0.0"
clap = { version = "=4.6.7", features = ["derive"] }
crossterm = "=0.29.0"
ratatui = "=0.30.2"
tokio = { version = "=1.53.2", features = ["full"] }
tracing = "=0.1.44"
tracing-appender = "=0.2.5"
tracing-subscriber = "=0.3.23"
chrono = "=0.4.45"
mpris = "=2.1.0"
reqwest = { version = "=0.13.5", default-features = false, features = ["json", "query"] }
