[package]
name = "cpu_renderer"
version = "0.1.0"
edition = "2021"
publish = false

[dependencies]
glam = "*"
image = { version = "*", default-features = false, features = ["jpeg", "png"] }
minifb = "*"
rayon = "*"
tobj = "*"
