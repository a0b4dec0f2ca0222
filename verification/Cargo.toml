[package]
name = "tell_lib"
version = "0.1.0"
edition = "2021"
publish = false

[dependencies]
crossbeam-channel = "*"
log = "*"
simple_logger = "*"
