[package]
name = "mandelbrot"
version = "0.1.0"
edition = "2021"
publish = false

[dependencies]
fixed = "*"
fixed_analytics = "*"
fast-posit = "*"
fastnum = "*"
flexfloat = "*"
num-traits = "*"
rayon = "*"
rug = { version = "*", default-features = false, features = ["float"] }
clap = { version = "*", features = ["derive"] }
macroquad = "*"
