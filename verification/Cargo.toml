[package]
name = "pixel_shapes"
version = "0.1.0"
edition = "2021"
publish = false

[dependencies]
glam = "0.27"
approx = "0.5"
strum = { version = "0.26", features = ["derive"] }
