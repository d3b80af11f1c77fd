[package]
name = "flic-async-rs"
version = "0.1.0"
edition = "2021"
publish = false

[dependencies]
bytes = "=1.12.1"
tokio = { version = "=1.54.1", features = ["full"] }
tokio-util = { version = "=0.7.20", features = ["codec"] }
futures = "=0.3.34"
hueclient = "=0.3.10"
reqwest = { version = "0.10", default-features = false, features = ["blocking", "json"] }
serde = { version = "=1.0.229", features = ["derive"] }
serde_json = "=1.0.154"
anyhow = "=1.0.104"
structopt = "=0.3.26"
