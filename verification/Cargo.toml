[package]
name = "rusthttp"
version = "0.1.0"
edition = "2021"
publish = false

[dependencies]
base64 = "*"
chrono = "*"
mime_guess = "*"
serde = { version = "*", features = ["derive"] }
serde_json = "*"
