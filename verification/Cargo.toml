[package]
name = "cat_engine"
version = "0.1.0"
edition = "2021"
publish = false

[dependencies]
gl = "=0.14.0"
glam = "=0.30.10"
image = { version = "=0.25.10", default-features = false, features = ["png", "jpeg"] }
sdl2 = "=0.38.0"
