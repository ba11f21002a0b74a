[package]
name = "browser_reporter"
version = "0.1.0"
edition = "2021"
publish = false

[dependencies]
js-sys = "*"
wasm-bindgen = "*"
wasm-bindgen-futures = "*"
