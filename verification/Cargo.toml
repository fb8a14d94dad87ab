[package]
name = "slanderbar"
version = "0.1.0"
edition = "2021"
publish = false

[dependencies]
nom = "7"
js-sys = "0.3"
wasm-bindgen = "0.2"
console_error_panic_hook = "0.1"
