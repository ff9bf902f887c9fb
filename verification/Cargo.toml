[package]
name = "faer_core"
version = "0.1.0"
edition = "2021"
publish = false

[dependencies]
eyre = "*"
human-repr = "*"
assert2 = "*"
