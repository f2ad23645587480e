[package]
name = "lowpoly"
version = "0.1.0"
edition = "2021"
publish = false

[dependencies]
rand = "=0.8.8"
image = "=0.25.10"
edge-detection = "=0.3.0"
rtriangulate = "=0.3.1"
