[package]
name = "raytracer"
version = "0.1.0"
edition = "2021"
publish = false

[dependencies]
rayon = "1"
glam = "0.24"
rand = "0.8"
sdl2 = "0.35"
ocl = "0.19"
