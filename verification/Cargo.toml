[package]
name = "catan"
version = "0.1.0"
edition = "2021"
publish = false

[dependencies]
rand = "0.9"
uuid = { version = "1", features = ["v4"] }
anyhow = "1"
bytemuck = { version = "1", features = ["derive"] }
env_logger = "*"
log = "0.4"
pollster = "*"
wgpu = "*"
winit = "0.30"
