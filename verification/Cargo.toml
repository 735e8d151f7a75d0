[package]
name = "handler_dispatch"
version = "0.1.0"
edition = "2021"
publish = false

[dependencies]
futures = "0.3"
