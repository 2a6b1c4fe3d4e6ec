[package]
name = "session_runtime"
version = "0.1.0"
edition = "2021"
publish = false

[dependencies]
anyhow = "=1.0.104"
chrono = { version = "=0.4.45", features = ["serde"] }
clap = { version = "=4.6.7", features = ["derive"] }
rand = "=0.10.3"
ratatui = "=0.29.0"
reqwest = { version = "=0.12.28", features = ["json"] }
russh = "=0.60.3"
serde = { version = "=1.0.229", features = ["derive"] }
tokio = { version = "=1.54.1", features = ["full"] }
