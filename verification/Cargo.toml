[package]
name = "drag_value"
version = "0.1.0"
edition = "2021"
publish = false

[dependencies]
emath = "0.20"
