[package]
name = "soft_body"
version = "0.1.0"
edition = "2021"
publish = false

[dependencies]
itertools = "*"
nalgebra = { version = "*", default-features = false, features = ["std"] }
