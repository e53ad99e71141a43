[package]
name = "wave_field"
version = "0.1.0"
edition = "2021"
publish = false

[dependencies]
macroquad = "=0.4.16"
miniquad = "=0.4.11"

[dev-dependencies]
ndarray = "0.16"
