[package]
name = "vale"
version = "0.1.0"
edition = "2021"
publish = false

[dependencies]
sails-rs = "=1.0.1"
