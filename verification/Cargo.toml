[package]
name = "raytracing"
version = "0.1.0"
edition = "2021"
publish = false

[dependencies]
nalgebra-glm = "0.18"
rand = "0.8"
rand_distr = "0.4"
rayon = "1"
image = { version = "0.24", default-features = false, features = ["png"] }
minifb = { version = "0.25", default-features = false, features = ["x11"] }
