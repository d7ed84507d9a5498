[package]
name = "director"
version = "0.1.0"
edition = "2021"
publish = false

[dependencies]
regex = "*"
base64 = "*"
