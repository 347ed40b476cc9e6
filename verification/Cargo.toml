[package]
name = "flame"
version = "0.1.0"
edition = "2021"
publish = false

[dependencies]
indexmap = "*"
lazy_static = "*"
serde = "*"
serde_derive = "*"
serde_json = "*"
thread-id = "*"
