[package]
name = "gds_viewer"
version = "0.1.0"
edition = "2021"
publish = false

[dependencies]
i_triangle = "*"
wgpu = "22"
winit = "0.30"
pollster = "*"
log = "*"
env_logger = "*"
bytemuck = { version = "*", features = ["derive"] }
