[package]
name = "quil_ir"
version = "0.1.0"
edition = "2021"
publish = false

[dependencies]
quil-rs = "=0.23.0"
indexmap = "=2.14.2"
num-complex = "=0.4.6"
pyo3 = { version = "=0.22.6", features = ["abi3-py38"] }
