[package]
name = "rt_in_1_weekend"
version = "0.1.0"
edition = "2021"
publish = false

[dependencies]
glam = "0.24"
image = { version = "0.24", default-features = false, features = ["png"] }
rand = "0.8"
rayon = "1"
termion = "2"
