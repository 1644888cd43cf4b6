[package]
name = "controller_host"
version = "0.1.0"
edition = "2021"
publish = false

[dependencies]
base64 = "*"
http = "=1.5.0"
serde = { version = "*", features = ["derive"] }
serde_json = "*"
serde_yaml = "*"
