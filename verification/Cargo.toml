[package]
name = "hex_world"
version = "0.1.0"
edition = "2021"
publish = false

[dependencies]
glam = "*"
glium = "0.36"
image = { version = "0.25", default-features = false, features = ["png"] }
rand = "0.9"
winit = "0.30"
