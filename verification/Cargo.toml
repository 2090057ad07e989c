[package]
name = "wgpu_backend"
version = "0.1.0"
edition = "2021"
publish = false

[dependencies]
bytemuck = "1"
futures = "0.3"
half = { version = "2", features = ["bytemuck"] }
thiserror = "1"
wgpu = "0.17"
