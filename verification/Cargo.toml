[package]
name = "chat_core"
version = "0.1.0"
edition = "2021"
publish = false

[dependencies]
hex = "*"
hmac = "*"
sha2 = "*"
fastrand = "*"
tokio = { version = "*", features = ["sync", "rt-multi-thread", "macros", "time"] }
lettre = { version = "*", default-features = false, features = ["smtp-transport", "builder", "tokio1"] }
deadpool-redis = "*"
