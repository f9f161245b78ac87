[package]
name = "arcade_core"
version = "0.1.0"
edition = "2021"
publish = false

[dependencies]
num = "0.4"
cgmath = "0.18"
winit = "0.28"
