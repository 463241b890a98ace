[package]
name = "quake_map"
version = "0.1.0"
edition = "2021"
publish = false

[dependencies]
glam = "*"
ron = "*"
serde = { version = "1", features = ["derive"] }
serde_json = "1"
