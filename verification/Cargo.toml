[package]
name = "rustworking_core"
version = "0.1.0"
edition = "2021"
publish = false

[dependencies]
oping = "*"
reqwest = { version = "0.12", default-features = false, features = ["blocking"] }
