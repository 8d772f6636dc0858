[package]
name = "oauth_sign"
version = "0.1.0"
edition = "2021"
publish = false

[dependencies]
base64 = "0.13"
hmac-sha1 = "0.1"
rand = "0.7"
envy = "0.4"
serde = { version = "1", features = ["derive"] }
reqwest = { version = "0.11", default-features = false, features = ["blocking"] }
url = "2"
