[package]
name = "strokefit"
version = "0.1.0"
edition = "2021"
publish = false

[dependencies]
anyhow = "1"
bevy_ecs = "0.13"
nalgebra = "0.33"
pollster = "0.3"
rand = "0.8"
rayon = "1"
vello = "0.2"
winit = "0.30"
