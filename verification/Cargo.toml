[package]
name = "semantic_probe"
version = "0.1.0"
edition = "2021"
publish = false

[dependencies]
serde_json = "1"
bytes = "1"
futures = "0.3"
http = "1"
tokio = { version = "1", features = ["time"] }
rusqlite = "0.31"
chrono = "0.4"
log = "0.4"
