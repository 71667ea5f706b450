[package]
name = "cubevis"
version = "0.1.0"
edition = "2021"
publish = false

[dependencies]
fitsrs = "*"
wgpu = "*"
winit = "*"
egui = "*"
egui-wgpu = "*"
bytemuck = { version = "*", features = ["derive"] }
cgmath = "*"
pollster = "*"
env_logger = "*"
log = "*"
memmap2 = "*"
async-channel = "*"
byte-slice-cast = "*"
