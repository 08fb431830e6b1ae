[package]
name = "certificate_waiter"
version = "0.1.0"
edition = "2021"
publish = false

[dependencies]
futures = "0.3"
rand = "0.8"
tokio = { version = "1", features = ["macros", "rt", "sync", "time"] }
tracing = "0.1"
