[package]
name = "icarus"
version = "0.1.0"
edition = "2021"
publish = false

[dependencies]
rayon = "=1.12.0"
log = "=0.4.34"
thiserror = "=2.0.21"
vulkano = "=0.35.2"
winit = "=0.30.13"
nalgebra = "=0.35.0"
modelz = "*"
ash = "*"
ash-window = "*"
