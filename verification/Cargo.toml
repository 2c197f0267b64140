[package]
name = "panda_date"
version = "0.1.0"
edition = "2021"
publish = false

[dependencies]
macroquad = { version = "*", features = ["audio"] }
macroquad-platformer = "*"
quad-rand = "*"
