[package]
name = "memedb"
version = "0.1.0"
edition = "2021"
publish = false

[dependencies]
base64 = "0.13"
rusqlite = { version = "0.29", features = ["bundled"] }
serde = { version = "1", features = ["derive"] }
serde_json = "1"
