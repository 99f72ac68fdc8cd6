[package]
name = "matching_engine"
version = "0.1.0"
edition = "2021"
publish = false

[dependencies]
rust_decimal = "1"
uuid = { version = "1", features = ["v7"] }
chrono = "0.4"
crossbeam = "0.8"
tracing = "0.1"
serde_json = "1"
