[package]
name = "async_rayon"
version = "0.1.0"
edition = "2021"
publish = false

[dependencies]
flume = "*"
futures = "*"
pin-project = "*"
rayon = "*"

[dev-dependencies]
tokio = { version = "*", features = ["rt", "time"] }
