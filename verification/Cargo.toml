[package]
name = "pad"
version = "0.1.0"
edition = "2021"
publish = false

[dependencies]
ice = "*"
quicklz = "*"
encoding_rs = "*"
regex = "*"
rayon = "*"
