[package]
name = "tiny_renderer"
version = "0.1.0"
edition = "2021"
publish = false

[dependencies]
rand = "0.8"
tobj = "*"
gltf = { version = "*", features = ["extras"] }
image = "*"
minifb = "*"
indicatif = "*"
