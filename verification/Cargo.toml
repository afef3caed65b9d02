[package]
name = "window_harness"
version = "0.1.0"
edition = "2021"
publish = false

[dependencies]
xml-rs = "0.8"
glium = "0.23"
log = "0.4"
pretty_env_logger = "0.3"
