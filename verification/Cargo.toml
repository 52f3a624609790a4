[package]
name = "graffiti_store"
version = "0.1.0"
edition = "2021"
publish = false

[dependencies]
base64 = "0.13"
image = "0.24"
rand = "0.8"
rusqlite = { version = "0.31", features = ["bundled"] }
serde_json = "1"
