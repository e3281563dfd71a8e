[package]
name = "bezier_editor"
version = "0.1.0"
edition = "2021"
publish = false

[dependencies]
gl = "*"
glfw = "*"
imgui = "*"
imgui-opengl-renderer = "*"
nalgebra-glm = "*"
