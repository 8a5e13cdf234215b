[package]
name = "gltf_import"
version = "0.1.0"
edition = "2021"
publish = false

[dependencies]
base64 = "0.13"
image = { version = "*", default-features = false, features = ["png", "jpeg"] }
gltf = "*"
