[package]
name = "gl_headless"
version = "0.2.0"
edition = "2021"
publish = false

[dependencies]
gl = "0.14"
glfw = "*"
proc-macro2 = "1"
quote = "1"
syn = { version = "2", features = ["full"] }
