[package]
name = "logship"
version = "0.1.0"
edition = "2021"
publish = false

[dependencies]
snap = "*"
url = "*"
reqwest = { version = "*", default-features = false }
tokio = { version = "*", default-features = false, features = ["rt", "time", "macros"] }
tracing = "*"
tracing-subscriber = "*"
parking_lot = "*"
