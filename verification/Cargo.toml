[package]
name = "proxygen"
version = "0.1.0"
edition = "2021"
publish = false

[dependencies]
regex = "1"
lazy_static = "1"
maud = "*"
nickel = "*"
serde = { version = "1", features = ["derive"] }
serde_json = "1"
