[package]
name = "moyu"
version = "0.1.0"
edition = "2021"
publish = false

[dependencies]
url = "2"
png = "0.17"
base64 = "0.22"
serde = { version = "1", features = ["derive"] }
serde_json = "1"
minreq = { version = "2", features = ["https"] }
chrono = "0.4"
