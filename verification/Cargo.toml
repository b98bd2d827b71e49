[package]
name = "deadlift"
version = "0.1.0"
edition = "2021"
publish = false

[dependencies]
serde = { version = "1", features = ["derive"] }
serde_yaml = "0.9"
serde_json = "1"
async-nats = "*"
tokio = { version = "1", features = ["full"] }
futures-util = "0.3"
reqwest = { version = "0.12", default-features = false, features = ["rustls-tls"] }
postgres = "0.19"
crossbeam-channel = "0.5"
ctrlc = "3"
anyhow = "1"
