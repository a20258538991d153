[package]
name = "vm"
version = "0.1.0"
edition = "2021"
publish = false

[dependencies]
rustc_apfloat = "*"
log = "*"
pretty_env_logger = "*"
