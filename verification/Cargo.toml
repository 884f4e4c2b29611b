[package]
name = "roguelib"
version = "0.1.0"
edition = "2021"
publish = false

[dependencies]
unicode-normalization = "0.1"
rusttype = { version = "0.7", features = ["gpu_cache"] }
glium = "0.23"
