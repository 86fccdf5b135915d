[package]
name = "chatgroup"
version = "0.1.0"
edition = "2021"
publish = false

[dependencies]
tiktoken-rs = "*"
chrono = "0.4"
strip-ansi-escapes = "*"
uuid = { version = "1", features = ["v4"] }
