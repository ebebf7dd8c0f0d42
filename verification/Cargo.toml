[package]
name = "wyoming"
version = "0.1.0"
edition = "2021"
publish = false

[dependencies]
serde = { version = "1", features = ["derive"] }
serde_json = "1"
thiserror = "1"
toml = "0.8"
log = "0.4"
env_logger = "0.11"
hound = "3"
realfft = "3"
rppal = "0.19"
libc = "0.2"
