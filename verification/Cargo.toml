[package]
name = "forward_cache"
version = "0.1.0"
edition = "2021"
publish = false

[dependencies]
base64 = "0.13"
reqwest = { version = "0.12", default-features = false, features = ["blocking"] }
