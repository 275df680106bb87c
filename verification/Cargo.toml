[package]
name = "fluid_canvas"
version = "0.1.0"
edition = "2021"
publish = false

[dependencies]
rand = "*"
