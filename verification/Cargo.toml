[package]
name = "smorust"
version = "0.1.0"
edition = "2021"
publish = false

[dependencies]
caches = "*"
serde = { version = "*", features = ["derive"] }
ndarray = "*"
