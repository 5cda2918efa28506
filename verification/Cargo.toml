[package]
name = "zero2prod"
version = "0.1.0"
edition = "2021"
publish = false

[dependencies]
hmac = "*"
sha2 = "*"
urlencoding = "*"
uuid = { version = "*", features = ["v4"] }
