[package]
name = "webadmin"
version = "0.1.0"
edition = "2021"
publish = false

[dependencies]
ahash = "=0.8.12"
base64 = "=0.22.1"
chrono = { version = "=0.4.45", features = ["serde"] }
chrono-humanize = "=0.2.3"
humansize = "=2.1.3"
pwhash = "1"
serde = { version = "=1.0.229", features = ["derive"] }
serde_json = "=1.0.154"
