[package]
name = "simd_math"
version = "0.1.0"
edition = "2021"
publish = false

[dependencies]
wide = "*"
wasm-bindgen = "*"
console_error_panic_hook = "*"
