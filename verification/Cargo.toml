[package]
name = "spoa"
version = "0.1.0"
edition = "2021"
publish = false

[dependencies]
tokio = { version = "1", features = ["net", "rt", "io-util", "sync", "time", "macros", "rt-multi-thread"] }
tokio-util = { version = "0.7", features = ["rt"] }
http = "1"
