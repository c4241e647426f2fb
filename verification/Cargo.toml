[package]
name = "roman_map"
version = "0.1.0"
edition = "2021"
publish = false

[dependencies]
bitmaps = "*"
fastrand = "*"
perlin2d = "*"
