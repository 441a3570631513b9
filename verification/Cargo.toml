[package]
name = "gltf_for_renpy"
version = "0.1.0"
edition = "2021"
publish = false

[dependencies]
cgmath = "0.18"
gltf = { version = "1", features = ["import", "utils", "names", "extras"] }
