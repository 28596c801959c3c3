[package]
name = "geometrify"
version = "0.1.0"
edition = "2021"
publish = false

[dependencies]
nanorand = "*"
rayon = "*"
image = "*"
clap = "*"
pbr = "*"
