[package]
name = "rencan"
version = "0.1.0"
edition = "2021"
publish = false

[dependencies]
png = "0.16"
vulkano = "0.21"
vulkano-shaders = "0.21"
vulkano-win = "0.21"
winit = "0.24"
nalgebra = "0.25"
crevice = "0.6"
mint = "0.5"
once_cell = "1"
rand = "0.8"
image = "0.23"
itertools = "0.10"
ffmpeg = "0.3"
rapier3d = "0.7"
