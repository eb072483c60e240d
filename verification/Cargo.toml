[package]
name = "fusion"
version = "0.1.0"
edition = "2021"
publish = false

[dependencies]
serde_json = "1"
chrono = { version = "0.4", default-features = false, features = ["alloc", "std"] }
