[package]
name = "aionui"
version = "0.1.0"
edition = "2021"
publish = false

[dependencies]
base64 = "0.22"
serde = { version = "1", features = ["derive"] }
serde_json = "1"
ignore = "0.4"
uuid = { version = "1", features = ["v7"] }
sha1 = "0.10"
