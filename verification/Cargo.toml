[package]
name = "term_raytracer"
version = "0.1.0"
edition = "2021"
publish = false

[dependencies]
input = "*"
libc = "0.2"
libm = "0.2"
term_size = "0.3"
