[package]
name = "common-meta"
version = "0.1.0"
edition = "2021"
publish = false

[dependencies]
greptime-proto = "*"
serde = { version = "1", features = ["derive"] }
serde_json = { version = "1", features = ["preserve_order"] }
