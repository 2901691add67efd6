[package]
name = "easy_patcher"
version = "0.1.0"
edition = "2021"
publish = false

[dependencies]
chrono = "*"
zip = { version = "*", default-features = false, features = ["deflate"] }
serde = { version = "*", features = ["derive"] }
serde_json = "*"
dialoguer = "*"
strum = "*"
strum_macros = "*"
