[package]
name = "openworld"
version = "0.1.0"
edition = "2021"
publish = false

[dependencies]
hashbrown = "*"
bracket-noise = "*"
bytemuck = { version = "1", features = ["derive"] }
instant = "*"
lazy_static = "*"
wgpu = "0.15"
