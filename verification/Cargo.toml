[package]
name = "nvstereo3d"
version = "0.1.0"
edition = "2021"
publish = false

[dependencies]
bytemuck = { version = "1", features = ["derive"] }
glam = "0.29"
glow = "0.16"
glutin = "0.32"
glutin-winit = "0.5"
libloading = "0.8"
raw-window-handle = "0.6"
rusb = "0.9"
serde = { version = "1", features = ["derive"] }
serde_json = "1"
wayland-client = "0.31"
wayland-egl = "0.32"
wayland-protocols = { version = "0.32", features = ["client", "staging"] }
winit = "0.30"
