[package]
name = "server_lib"
version = "0.1.0"
edition = "2021"
publish = false

[dependencies]
sled = "0.34"
uuid = { version = "1", features = ["v3", "v4"] }
