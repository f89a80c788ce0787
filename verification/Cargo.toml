[package]
name = "chip8_crab"
version = "0.1.0"
edition = "2021"
publish = false

[dependencies]
rand = "*"
regex = "*"
thiserror = "*"
ctrlc = "*"
sdl2 = "*"
