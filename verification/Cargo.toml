[package]
name = "query_metrics"
version = "0.1.0"
edition = "2021"
publish = false

[dependencies]
anyhow = "=1.0.104"
base64 = "=0.23.1"
serde = { version = "=1.0.229", features = ["derive"] }
serde_yaml = "=0.9.34"
url = { version = "=2.5.8", features = ["serde"] }
