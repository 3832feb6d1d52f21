[package]
name = "awscore"
version = "0.1.0"
edition = "2021"
publish = false

[dependencies]
sha2 = "0.10"
hmac = "0.12"
serde_json = "1"
chrono = "0.4"
urlencoding = "2"
dirs = "*"
anyhow = "1"
reqwest = { version = "0.12", default-features = false, features = ["blocking"] }
