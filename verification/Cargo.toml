[package]
name = "kv"
version = "0.1.0"
edition = "2021"
publish = false

[dependencies]
dashmap = "*"
sled = "*"
http = "*"

[dev-dependencies]
tempfile = "*"
