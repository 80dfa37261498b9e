[package]
name = "saw"
version = "0.1.0"
edition = "2021"
publish = false

[dependencies]
anyhow = "=1.0.104"
chrono = { version = "=0.4.45", features = ["serde"] }
clap = { version = "=4.6.7", features = ["derive", "env"] }
crossterm = "=0.27.0"
log = "=0.4.35"
nix = { version = "=0.29.0", features = ["signal", "time"] }
notify = "=6.1.1"
ratatui = "=0.26.3"
rusqlite = { version = "=0.31.0", features = ["bundled"] }
serde = { version = "=1.0.229", features = ["derive"] }
serde_json = "=1.0.154"
sysinfo = "=0.35.2"
tokio = { version = "=1.54.1", features = ["full"] }
toml = { version = "=0.8.23", features = ["preserve_order"] }
