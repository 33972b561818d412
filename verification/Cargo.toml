[package]
name = "gomoku"
version = "0.1.0"
edition = "2021"
publish = false

[dependencies]
clap = { version = "2.33", features = ["yaml"] }
sdl2 = { version = "0.34", features = ["image"] }
