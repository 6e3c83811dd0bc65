[package]
name = "ntfyclip"
version = "0.1.0"
edition = "2021"
publish = false

[dependencies]
url = "*"
tokio = { version = "*", features = ["rt-multi-thread", "macros", "time", "process", "io-util"] }
tokio-tungstenite = "*"
futures-util = "*"
log = "*"
pretty_env_logger = "*"
anyhow = "*"
