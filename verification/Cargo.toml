[package]
name = "cavestory"
version = "0.1.0"
edition = "2021"
publish = false

[dependencies]
uuid = { version = "1", features = ["v4"] }
tiled = "0.9"
sdl2 = { version = "0.35", features = ["image"] }
