[package]
name = "nbody"
version = "0.1.0"
edition = "2021"
publish = false

[dependencies]
ndarray = "0.16"
ndarray-npy = { version = "0.9", default-features = false }
