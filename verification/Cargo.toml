[package]
name = "push_fanout"
version = "0.1.0"
edition = "2021"
publish = false

[dependencies]
web-push = { version = "=0.10.4", default-features = false, features = ["hyper-client"] }
base64 = "=0.13.1"
axum = "=0.7.9"
clap = { version = "=4.6.7", features = ["derive"] }
env_logger = "=0.11.11"
listenfd = "=1.0.2"
log = "=0.4.34"
serde = { version = "=1.0.229", features = ["derive"] }
tokio = { version = "=1.54.1", features = ["macros", "rt-multi-thread", "net", "time"] }

[dev-dependencies]
ece = "=2.4.2"
