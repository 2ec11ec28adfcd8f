[package]
name = "mogen_studio"
version = "0.1.0"
edition = "2021"
publish = false

[dependencies]
eframe = { version = "0.29", default-features = false, features = ["default_fonts", "glow", "x11"] }
glam = "0.29"
image = { version = "0.25", default-features = false, features = ["png"] }
rfd = "0.15"
