[package]
name = "even_odd"
version = "0.1.0"
edition = "2021"
publish = false

[dependencies]
rayon = "*"
