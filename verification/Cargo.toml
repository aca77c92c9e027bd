[package]
name = "llingr-kafka"
version = "0.1.0"
edition = "2021"
publish = false

[dependencies]
llingr-nexus = "*"
log = "0.4"
prometheus-client = "*"
tiny_http = "*"
serde = { version = "1", features = ["derive"] }
serde_json = "1"
rskafka = "*"
tokio = { version = "1", features = ["macros", "rt-multi-thread"] }
chrono = "0.4"
uuid = { version = "1", features = ["v4"] }
env_logger = "*"
