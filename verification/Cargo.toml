[package]
name = "dacho"
version = "0.1.0"
edition = "2021"
publish = false

[dependencies]
anyhow = "1"
ash = "0.37"
ash-window = "0.12"
raw-window-handle = "0.5"
winit = { version = "0.30", default-features = false, features = ["rwh_05", "x11"] }
glam = "0.29"
bytemuck = "1"
futures = "0.3"
tokio = { version = "1", features = ["rt-multi-thread"] }
naga = { version = "*", features = ["wgsl-in", "spv-out"] }
