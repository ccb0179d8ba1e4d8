[package]
name = "shader_compose"
version = "0.1.0"
edition = "2021"
publish = false

[dependencies]
bytemuck = { version = "1", features = ["derive"] }
futures-intrusive = "0.5"
image = "0.24"
pollster = "0.3"
wgpu = "0.19"
