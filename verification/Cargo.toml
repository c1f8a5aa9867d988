[package]
name = "protovalidate"
version = "0.1.0"
edition = "2021"
publish = false

[dependencies]
buffa = "*"
buffa-descriptor = { version = "*", features = ["reflect"] }
buffa-types = "*"
regex = "1"
pyo3 = "*"
