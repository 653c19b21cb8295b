[package]
name = "kloenk"
version = "0.1.0"
edition = "2021"
publish = false

[dependencies]
winit = "0.30"
cgmath = "0.18"
log = "0.4"
env_logger = "0.11"
