[package]
name = "marching_cubes"
version = "0.1.0"
edition = "2021"
publish = false

[dependencies]
anyhow = "1"
bytemuck = "1"
cgmath = "0.18"
noise = "0.7"
notify = "4"
pollster = "0.2"
rand = "0.8"
vulkano = "*"
wgpu = "0.14"
winit = "0.27"
