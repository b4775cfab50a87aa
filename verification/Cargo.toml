[package]
name = "betfair_ocm"
version = "0.1.0"
edition = "2021"
publish = false

[dependencies]
ahash = "0.8"
rust_decimal = { version = "1", default-features = false, features = ["std"] }
