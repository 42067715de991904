[package]
name = "polyfuse"
version = "0.1.0"
edition = "2021"
publish = false

[dependencies]
clipper2 = "*"
lyon = "*"
usvg = "*"
