[package]
name = "vtrace"
version = "0.1.0"
edition = "2021"
publish = false

[dependencies]
ash = "0.37"
dot_vox = "4"
glm = "0.2"
noise = { version = "0.7", default-features = false }
