[package]
name = "rust_snake"
version = "0.1.0"
edition = "2021"
publish = false

[dependencies]
minifb = "0.25"
rand = "0.8"
rodio = "0.17"
