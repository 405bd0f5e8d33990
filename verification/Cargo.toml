[package]
name = "payments_engine"
version = "0.1.0"
edition = "2021"
publish = false

[dependencies]
rust_decimal = "1"
serde = { version = "1", features = ["derive"] }
csv-async = { version = "1", features = ["tokio"] }
tokio = { version = "1", features = ["rt-multi-thread", "macros", "fs", "io-std", "sync"] }
tokio-stream = "0.1"
