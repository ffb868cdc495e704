[package]
name = "chill"
version = "0.4.0"
edition = "2021"
publish = false

[dependencies]
url = "1"
uuid = "1"
base64 = "0.13"
mime = "0.3"
serde = { version = "1", features = ["derive"] }
serde_json = "1"
reqwest = { version = "0.12", default-features = false, features = ["blocking"] }
regex = "1"
tempdir = "0.3"
