[package]
name = "clipcuts"
version = "0.1.0"
edition = "2021"
publish = false

[dependencies]
anyhow = "1"
matroska = "*"
serde = { version = "1", features = ["derive"] }
serde_json = "1"
time = { version = "0.3", features = ["local-offset"] }
