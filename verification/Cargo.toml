[package]
name = "password_store"
version = "0.1.0"
edition = "2021"
publish = false

[dependencies]
aes-gcm = "0.10"
scrypt = { version = "0.11", default-features = false }
anyhow = "1"
tiberius = { version = "0.12", default-features = false, features = ["tds73"] }
tokio = { version = "1", features = ["net", "rt"] }
tokio-util = { version = "0.7", features = ["compat"] }
