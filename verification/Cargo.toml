[package]
name = "nvim_wasm"
version = "0.1.0"
edition = "2021"
publish = false

[dependencies]
slab = "=0.4.12"
wasmtime = "=48.0.5"
