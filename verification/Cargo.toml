[package]
name = "mandelbrot"
version = "0.1.0"
edition = "2021"
publish = false

[dependencies]
minifb = "*"
num = "0.4"
rayon = "1"
