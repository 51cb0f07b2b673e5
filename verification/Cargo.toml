[package]
name = "logged_tcp_proxy"
version = "0.1.0"
edition = "2021"
publish = false

[dependencies]
bytes = "1"
clap = { version = "4", features = ["derive"] }
env_logger = "*"
log = "0.4"
logged-stream = "*"
tokio = { version = "1", features = ["io-util", "macros", "net", "rt-multi-thread", "time"] }
