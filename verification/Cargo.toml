[package]
name = "mqtt"
version = "0.1.0"
edition = "2021"
publish = false

[dependencies]
bytes = "=0.4.12"
env_logger = "0.6"
failure = "0.1"
futures = "=0.1.31"
log = "=0.4.34"
native-tls = "=0.2.18"
regex = "=1.13.1"
reqwest = "0.9"
serde = { version = "1", features = ["derive"] }
serde_json = "=1.0.154"
tokio = "=0.1.22"
tokio-fs = "0.1"
tokio-io-timeout = "=0.3.1"
tokio-process = "0.2"
tokio-signal = "0.2"
tokio-tls = "=0.2.1"
tungstenite = "=0.6.1"
url = "=1.7.2"
