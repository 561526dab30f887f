[package]
name = "triangles3bevy"
version = "0.1.0"
edition = "2021"
publish = false

[dependencies]
image = { version = "0.24", default-features = false, features = ["png"] }
rand = { version = "0.8" }
