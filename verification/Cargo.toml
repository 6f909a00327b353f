[package]
name = "raytracer"
version = "0.1.0"
edition = "2021"
publish = false

[dependencies]
glm = "0.2"
png = "0.15"
rand = "0.8"
