[package]
name = "config_bridge"
version = "0.1.0"
edition = "2021"
publish = false

[dependencies]
configtpl = "=0.1.1"
pyo3 = "=0.26.0"
