[package]
name = "rpi_cc1101_driver"
version = "0.1.0"
edition = "2021"
publish = false

[dependencies]
pyo3 = { version = "0.21", features = ["extension-module", "abi3-py38"] }
rppal = "0.17"
