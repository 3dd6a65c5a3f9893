[package]
name = "monarch_store"
version = "0.1.0"
edition = "2021"
publish = false

[dependencies]
alpm = "*"
chrono = { version = "0.4", default-features = false, features = ["std", "clock"] }
feed-rs = "2"
serde = { version = "1", features = ["derive"] }
serde_json = "1"
