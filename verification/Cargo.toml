[package]
name = "voxeltree"
version = "0.1.0"
edition = "2021"
publish = false

[dependencies]
wgpu = "22"
winit = "0.30"
nalgebra = "*"
rand = "0.8"
pollster = "*"
log = "*"
simplelog = "0.12"
bytemuck = { version = "1", features = ["derive"] }
