[package]
name = "bloom_filter"
version = "0.1.0"
edition = "2021"
publish = false

[dependencies]
wyhash = "0.5"
uuid = { version = "1", features = ["v4"] }
