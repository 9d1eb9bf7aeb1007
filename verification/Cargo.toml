[package]
name = "julia_viewer"
version = "0.1.0"
edition = "2021"
publish = false

[dependencies]
pixels = "=0.12.1"
winit = "=0.28.7"
