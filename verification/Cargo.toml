[package]
name = "uptime"
version = "0.1.0"
edition = "2021"
publish = false

[dependencies]
chrono = "0.4"
hostname = "0.4"
reqwest = { version = "0.12", default-features = false, features = ["blocking"] }

[dev-dependencies]
serde_json = "1"
