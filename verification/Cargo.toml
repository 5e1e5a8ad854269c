[package]
name = "render_core"
version = "0.1.0"
edition = "2021"
publish = false

[dependencies]
smallvec = "*"
legion = { version = "*", default-features = false }
wgpu = "*"
