[package]
name = "rim"
version = "0.0.4"
edition = "2021"
publish = false

[dependencies]
clap = "=2.34.0"
gl = "=0.14.0"
image = "=0.23.14"
imgui = "0.7"
imgui-opengl-renderer = "=0.11.1"
imgui-sdl2 = "0.14"
notify = "=4.0.18"
sdl2 = "*"
