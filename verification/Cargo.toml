[package]
name = "flowfield"
version = "0.1.0"
edition = "2021"
publish = false

[dependencies]
nannou = { version = "0.18.1", default-features = false }
noise = "0.8.2"
