[package]
name = "sky_falls"
version = "0.1.0"
edition = "2021"
publish = false

[dependencies]
macroquad = "*"
macroquad-particles = "*"
miniquad = "*"
console_error_panic_hook = "*"
