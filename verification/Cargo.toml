[package]
name = "crypto_tracker"
version = "0.1.0"
edition = "2021"
publish = false

[dependencies]
chrono = "=0.4.45"
colorize = "=0.1.0"
crossterm = "=0.28.1"
dotenv = "=0.15.0"
inquire = { version = "=0.7.5", features = ["date"] }
ratatui = "=0.29.0"
reqwest = { version = "=0.12.28", default-features = false, features = ["json"] }
rusqlite = { version = "=0.32.1", features = ["bundled"] }
serde = { version = "=1.0.229", features = ["derive"] }
serde_json = "=1.0.154"
tokio = { version = "=1.54.1", features = ["full"] }
