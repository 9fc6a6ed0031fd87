[package]
name = "ray_tracer_challenge"
version = "0.1.0"
edition = "2021"
publish = false

[dependencies]
approx = "0.5"
image = { version = "=0.24.9", default-features = false, features = ["png"] }
rayon = "=1.12.0"
softbuffer = "=0.1.1"
winit = "=0.26.1"
