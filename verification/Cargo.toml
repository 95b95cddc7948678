[package]
name = "bounding_space"
version = "0.1.0"
edition = "2021"
publish = false

[dependencies]
nalgebra = { version = "*", default-features = false, features = ["std"] }

[dev-dependencies]
approx = { version = "*", default-features = false }
