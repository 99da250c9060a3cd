[package]
name = "firestore-serde"
version = "0.1.0"
edition = "2021"
publish = false

[dependencies]
chrono = { version = "0.4", default-features = false, features = ["std"] }
googapis = { version = "0.6", features = ["google-firestore-v1"] }
prost = "0.9"
prost-types = "0.9"
serde = "1"
serde_bytes = "0.11"
