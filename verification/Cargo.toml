[package]
name = "tear"
version = "0.1.0"
edition = "2021"
publish = false

[dependencies]
config = { version = "*", default-features = false, features = ["toml"] }
input = "*"
libc = "*"
libudev-sys = "*"
