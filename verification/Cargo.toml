[package]
name = "ldraw"
version = "0.1.0"
edition = "2021"
publish = false

[dependencies]
nalgebra = "*"

[dev-dependencies]
regex = "*"
