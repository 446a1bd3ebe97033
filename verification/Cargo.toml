[package]
name = "chip8"
version = "0.1.0"
edition = "2021"
publish = false

[dependencies]
rand = "*"
clap = "2"
env_logger = "*"
sdl2 = "*"
