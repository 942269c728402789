[package]
name = "aterm"
version = "0.1.0"
edition = "2021"
publish = false

[dependencies]
toml = "0.8"
serde = { version = "1", features = ["derive"] }
serde_json = "1"
winit = "0.30"
alacritty_terminal = "*"
crossbeam-channel = "0.5"
arboard = "*"
dirs = "*"
log = "0.4"
env_logger = "*"
libc = "0.2"
pollster = "*"
wgpu = "*"
glyphon = "*"
