[package]
name = "find_up"
version = "0.1.0"
edition = "2021"
publish = false

[dependencies]
rustc-hash = "*"
typed-builder = "*"
