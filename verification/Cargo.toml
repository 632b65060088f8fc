[package]
name = "foghorn"
version = "0.1.0"
edition = "2021"
publish = false

[dependencies]
mime = "0.3"
uuid = "1"
tokio = { version = "1", features = ["rt", "time", "macros", "sync"] }
