[package]
name = "clipcat"
version = "0.1.0"
edition = "2021"
publish = false

[dependencies]
anyhow = "=1.0.104"
chrono = "=0.4.45"
polodb_core = "=4.4.2"
serde = { version = "=1.0.229", features = ["derive"] }
serde_json = "=1.0.151"
tantivy = "=0.19.2"
uuid = { version = "=1.27.0", features = ["v4"] }
