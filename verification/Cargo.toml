[package]
name = "render_engine"
version = "0.1.0"
edition = "2021"
publish = false

[dependencies]
serde_json = "1"
serde = { version = "1", features = ["derive"] }
thiserror = "1"
typst = "0.13"
typst-pdf = "0.13"
typst-svg = "0.13"
wasm-bindgen = "0.2"
console_error_panic_hook = "0.1"
