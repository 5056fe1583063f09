[package]
name = "space_rocks"
version = "0.1.0"
edition = "2021"
publish = false

[dependencies]
macroquad = { version = "0.4", features = ["audio"] }
rand = "0.8"
rand_xoshiro = "0.6"
