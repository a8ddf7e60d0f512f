[package]
name = "spritec"
version = "0.1.0"
edition = "2021"
publish = false

[dependencies]
gltf = { version = "=1.4.1", features = ["KHR_lights_punctual"] }
