[package]
name = "tape_backup"
version = "0.1.0"
edition = "2021"
publish = false

[dependencies]
regex = "=1.11.3"
percent-encoding = "=2.3.2"
serde = { version = "=1.0.229", features = ["derive"] }
serde_json = "=1.0.151"
