[package]
name = "libreauth"
version = "0.1.0"
edition = "2021"
publish = false

[dependencies]
base64 = "0.10"
hmac = "0.7"
sha-1 = "0.8"
sha2 = "0.8"
sha3 = "0.8"
pbkdf2 = { version = "0.3", default-features = false }
rust-argon2 = "*"
rand = "*"
unicode-normalization = "0.1"
libc = "0.2"
