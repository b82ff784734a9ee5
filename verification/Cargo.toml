[package]
name = "raytrace"
version = "0.1.0"
edition = "2021"
publish = false

[dependencies]
bytemuck = { version = "1", features = ["derive"] }
env_logger = "0.11"
num-traits = "0.2"
pollster = "0.3"
rand = "0.8"
rayon = "1"
wgpu = "22"
winit = "0.30"
