[package]
name = "mirakc"
version = "0.1.0"
edition = "2021"
publish = false

[dependencies]
mustache = "*"
http-range = "*"
serde = { version = "*", features = ["derive"] }
serde_json = "*"
