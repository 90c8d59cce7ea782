[package]
name = "journal_relay"
version = "0.1.5"
edition = "2021"
publish = false

[dependencies]
anyhow = "=1.0.104"
base64 = "=0.13.1"
chrono = { version = "=0.4.45", default-features = false, features = ["std", "serde"] }
env_logger = "=0.11.11"
log = "=0.4.34"
reqwest = { version = "=0.12.28", features = ["json"] }
serde = { version = "=1.0.229", features = ["derive"] }
takecell = "=0.1.1"
teloxide = "=0.17.0"
tokio = { version = "=1.54.1", features = ["rt-multi-thread", "macros", "sync", "time"] }
toml = "*"
