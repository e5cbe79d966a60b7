[package]
name = "configurations"
version = "0.1.0"
edition = "2021"
publish = false

[dependencies]
serde_yaml = "=0.9.34"
serde = { version = "=1.0.229", features = ["derive"] }
serde_json = "=1.0.154"
structopt = "=0.3.26"
dotenv = "=0.15.0"
dotenvy = "=0.15.7"
env_logger = "=0.11.11"
log = "=0.4.35"
rust_decimal = "=1.43.0"
tokio = { version = "=1.54.1", features = ["full"] }
atomic-interval = "*"
anyhow = "=1.0.104"
