[package]
name = "parakeet"
version = "0.1.0"
edition = "2021"
publish = false

[dependencies]
ndarray = "*"
rten = { version = "*", features = ["mmap"] }
