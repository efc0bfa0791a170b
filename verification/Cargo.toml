[package]
name = "forward_instanced"
version = "0.1.0"
edition = "2021"
publish = false

[dependencies]
zerocopy = "0.2"
glam = "0.8"
legion = "0.2"
wgpu = "0.4"
