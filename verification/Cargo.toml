[package]
name = "node_forge_render"
version = "0.1.0"
edition = "2021"
publish = false

[dependencies]
naga = { version = "23", features = ["wgsl-in"] }
serde = { version = "1", features = ["derive"] }
serde_json = "1"
anyhow = "1"
bytemuck = "1"
image = { version = "0.25", default-features = false }
