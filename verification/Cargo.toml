[package]
name = "lockrs"
version = "0.3.0"
edition = "2021"
publish = false

[dependencies]
chrono = "=0.4.45"
egui = "=0.37.0"
egui_extras = { version = "=0.37.0", features = ["image"] }
egui-wgpu = "=0.37.0"
image = { version = "=0.25.10", default-features = false, features = ["png", "jpeg"] }
libc = "=0.2.191"
pam = "=0.7.0"
pollster = "=1.0.1"
raw-window-handle = "=0.6.2"
wayland-client = { version = "=0.31.15", features = ["system", "dlopen"] }
wayland-protocols = { version = "=0.32.13", features = ["client", "staging"] }
wgpu = "=30.0.1"
xkbcommon = "=0.9.0"
