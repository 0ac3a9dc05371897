[package]
name = "payments_engine"
version = "0.1.0"
edition = "2021"
publish = false

[dependencies]
csv = "1"
log = "0.4"
env_logger = "*"
serde = { version = "1", features = ["derive"] }
