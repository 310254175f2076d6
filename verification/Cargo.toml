[package]
name = "testimony"
version = "0.1.0"
edition = "2021"
publish = false

[dependencies]
env_logger = "0.11"
libc = "0.2"
log = "0.4"
serde = { version = "1", features = ["derive"] }
serde_json = "1"
signal-hook = "0.3"
