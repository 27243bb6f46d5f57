[package]
name = "sensors345"
version = "0.1.0"
edition = "2021"
publish = false

[dependencies]
rtlsdr = "*"
