[package]
name = "dumb_game"
version = "0.1.0"
edition = "2021"
publish = false

[dependencies]
nalgebra = "0.30"
ncollide2d = "0.33"
quicksilver = { version = "=0.3.22", default-features = false }
