[package]
name = "coreml"
version = "0.3.0"
edition = "2021"
publish = false

[dependencies]
serde = { version = "1", features = ["derive"] }
serde_json = "1"
half = "2"
libc = "0.2"
doom-fish-utils = "*"
apple-cf = "*"
