[package]
name = "file_encryption"
version = "0.1.0"
edition = "2021"
publish = false

[dependencies]
des = "0.0"
uuid = { version = "1", features = ["v4"] }
