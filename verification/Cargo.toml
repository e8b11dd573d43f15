[package]
name = "padre"
version = "0.1.0"
edition = "2021"
publish = false

[dependencies]
serde_json = "=1.0.154"
regex = "=1.13.1"
tokio = { version = "=1.54.1", features = ["full"] }
tokio-util = { version = "=0.7.20", features = ["codec"] }
bytes = "=1.12.1"
futures = "=0.3.34"
clap = "=2.34.0"
tokio-tungstenite = "*"
url = "2"
