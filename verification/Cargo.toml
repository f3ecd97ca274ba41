[package]
name = "rendering"
version = "0.1.0"
edition = "2021"
publish = false

[dependencies]
winit = "0.30"
wgpu = "*"
wgpu_text = "*"
bytemuck = { version = "*", features = ["derive"] }
glam = "*"
image = "*"
log = "*"
env_logger = "*"
pollster = "*"
