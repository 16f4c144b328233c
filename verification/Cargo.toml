[package]
name = "http_server_starter_rust"
version = "0.1.0"
edition = "2021"
publish = false

[dependencies]
bytes = "*"
