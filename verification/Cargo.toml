[package]
name = "fractals-wasm"
version = "0.1.0"
edition = "2021"
publish = false

[dependencies]
palette = "0.4"
wasm-bindgen = "0.2"
