[package]
name = "snake"
version = "0.1.0"
edition = "2021"
publish = false

[dependencies]
rand = "=0.10.3"
rodio = "=0.22.2"
sdl2 = { version = "=0.38.0", features = ["image", "ttf"] }
