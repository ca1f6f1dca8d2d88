[package]
name = "mgz"
version = "0.1.0"
edition = "2021"
publish = false

[dependencies]
flate2 = { version = "1", features = ["zlib-rs"] }
