[package]
name = "batch_routing"
version = "0.1.0"
edition = "2021"
publish = false

[dependencies]
uuid = "1"
bytes = "1"
