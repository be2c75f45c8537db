[package]
name = "squirrel"
version = "0.1.0"
edition = "2021"
publish = false

[dependencies]
rust-crypto = "0.2"
base64 = "*"
rand = "*"
aes = "*"
cbc = "*"
clap = "*"
rusoto_core = { version = "*", default-features = false, features = ["rustls"] }
rusoto_dynamodb = { version = "*", default-features = false, features = ["rustls"] }
rusoto_kms = { version = "*", default-features = false, features = ["rustls"] }
tokio = { version = "*", features = ["rt"] }
