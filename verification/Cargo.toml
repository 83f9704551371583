[package]
name = "ultraterm"
version = "0.1.0"
edition = "2021"
publish = false

[dependencies]
anyhow = "1"
arboard = { version = "=3.3.2", default-features = false }
bytemuck = { version = "1", features = ["derive"] }
crossbeam-channel = "0.5"
env_logger = { version = "0.10", default-features = false }
fontdue = "0.8"
log = "0.4"
parking_lot = "0.12"
pollster = "0.3"
portable-pty = "0.8"
unicode-width = "0.1"
vte = "0.13"
winit = { version = "0.29", default-features = false, features = ["rwh_06", "x11"] }
