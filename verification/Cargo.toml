[package]
name = "rusted_arena"
version = "0.1.0"
edition = "2021"
publish = false

[dependencies]
rand = "0.8"
glium = "0.30"
image = "0.23"
cgmath = "0.18"
