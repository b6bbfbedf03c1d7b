[package]
name = "bazzounquester"
version = "0.1.0"
edition = "2021"
publish = false

[dependencies]
regex = "1"
serde_json = "1"
base64 = "0.22"
mime_guess = "2"
serde = { version = "1", features = ["derive"] }
rhai = "1"
reqwest = { version = "0.12", default-features = false, features = ["blocking"] }
