[package]
name = "vireo"
version = "0.1.0"
edition = "2021"
publish = false

[dependencies]
bytemuck = { version = "1", features = ["derive"] }
cosmic-text = "*"
env_logger = "*"
glam = { version = "*", features = ["bytemuck"] }
image = { version = "*", default-features = false, features = ["png", "jpeg"] }
parking_lot = "*"
pollster = "*"
rustc-hash = "2"
wgpu = "*"
winit = "0.30"
