[package]
name = "uttt_matchmaking"
version = "0.1.0"
edition = "2021"
publish = false

[dependencies]
env_logger = "=0.8.4"
lazy_static = "=1.5.1"
log = "=0.4.35"
mio = { version = "=0.7.14", features = ["os-poll", "tcp"] }
rand = "=0.8.5"
serde = { version = "=1.0.229", features = ["derive"] }
serde_json = "=1.0.154"
