[package]
name = "mp4"
version = "0.1.0"
edition = "2021"
publish = false

[dependencies]
bytes = "*"
serde = { version = "*", features = ["derive"] }
serde_json = "*"
