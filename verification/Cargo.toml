[package]
name = "soft_render"
version = "0.1.0"
edition = "2021"
publish = false

[dependencies]
cgmath = "*"
image = { version = "*", default-features = false, features = ["jpeg", "png"] }
sdl2 = { version = "*", features = ["gfx"] }
time = "0.1"
wavefront_obj = "*"
