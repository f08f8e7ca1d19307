[package]
name = "borg_exporter"
version = "0.1.0"
edition = "2021"
publish = false

[dependencies]
chrono = { version = "0.4", default-features = false, features = ["std"] }
clap = { version = "3.2", features = ["derive"] }
env_logger = "0.9"
log = "0.4"
prometheus_exporter = "0.8"
serde = { version = "1", features = ["derive"] }
serde_json = "1"
