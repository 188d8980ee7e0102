[package]
name = "ebooksync"
version = "2.2.0"
edition = "2021"
publish = false

[dependencies]
serde_json = "1"
tracing = "0.1"
wit-bindgen = { version = "*", features = ["async", "async-spawn"] }
