[package]
name = "argus"
version = "0.1.0"
edition = "2021"
publish = false

[dependencies]
crossbeam = "0.8"
quick-xml = "0.37"
