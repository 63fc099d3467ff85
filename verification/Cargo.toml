[package]
name = "urllb"
version = "0.1.0"
edition = "2021"
publish = false

[dependencies]
nanoid = "*"
rand = "*"
validator = "*"
ipnet = "*"
