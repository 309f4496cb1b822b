[package]
name = "log_util"
version = "0.1.0"
edition = "2021"
publish = false

[dependencies]
chrono = "*"
colored = "*"
lazy_static = "*"
log = "*"
