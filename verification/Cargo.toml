[package]
name = "twilight"
version = "0.5.0"
edition = "2021"
publish = false

[dependencies]
serde = { version = "1", features = ["derive"] }
hyper = { version = "0.14", features = ["client", "http1", "tcp"] }
tokio = { version = "1", features = ["rt", "time", "net"] }
