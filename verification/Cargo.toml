[package]
name = "ergot"
version = "0.1.0"
edition = "2021"
publish = false

[dependencies]
cobs = "*"

[dev-dependencies]
postcard = { version = "*", features = ["use-std"] }
