[package]
name = "ibooks_export"
version = "0.1.0"
edition = "2021"
publish = false

[dependencies]
anyhow = "1"
chrono = { version = "0.4", default-features = false, features = ["std", "serde"] }
clap = { version = "4", features = ["derive"] }
dirs = "5"
env_logger = "0.10"
log = "0.4"
rusqlite = "0.31"
serde_json = "1"
term-table = "1"
thiserror = "1"
