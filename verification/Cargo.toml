[package]
name = "naide_desktop"
version = "0.1.0"
edition = "2021"
publish = false

[dependencies]
regex = "1"
serde_json = "1"
serde = { version = "1", features = ["derive"] }
notify = "8"
chrono = { version = "0.4", default-features = false, features = ["clock"] }
log = "0.4"
