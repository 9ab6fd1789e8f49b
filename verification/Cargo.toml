[package]
name = "cells_renderer"
version = "0.1.0"
edition = "2021"
publish = false

[dependencies]
bytemuck = "1"
cgmath = "0.18"
rand = "0.7"
wgpu = { version = "26", features = ["spirv"] }
winit = "0.30"
specs = "0.20"
futures = "0.3"
env_logger = "0.11"
log = "0.4"
shaderc = "*"
imgui = "*"
