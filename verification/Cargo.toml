[package]
name = "falling_sand"
version = "0.1.0"
edition = "2021"
publish = false

[dependencies]
line_drawing = "1.0"
bevy = { version = "0.8", default-features = false }
bevy_vulkano = { version = "0.6", features = ["gui"] }
vulkano = "0.30"
vulkano-shaders = "0.30"
vulkano-util = "0.30"
strum = "0.24"
strum_macros = "0.24"
