[package]
name = "simple_renderer"
version = "0.1.0"
edition = "2021"
publish = false

[dependencies]
uuid = { version = "1", features = ["v4"] }
gl = "0.14"
gl_loader = "0.1.2"
glfw = "0.55"
imgui = "0.11"
imgui-opengl-renderer = "0.12"
stb_image = "0.3"
tobj = "2.0.4"
threadpool = "1.8"
colored = "2"
