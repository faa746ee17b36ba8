[package]
name = "pseudo3d"
version = "0.1.0"
edition = "2021"
publish = false

[dependencies]
glam = "*"
glow = "*"
glutin = "*"
glutin-winit = "*"
image = { version = "*", default-features = false, features = ["png"] }
kira = "*"
mint = "*"
rand = "*"
raw-window-handle = "*"
thiserror = "*"
toml = "*"
winit = "*"
