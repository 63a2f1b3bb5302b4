[package]
name = "bsh"
version = "0.1.0"
edition = "2021"
publish = false

[dependencies]
ansi_term = "0.12"
futures = "0.3"
wasm-bindgen = "0.2"
js-sys = "0.3"
web-sys = { version = "0.3", features = ["Window", "Response"] }
wasm-bindgen-futures = "0.4"
serde-wasm-bindgen = "0.6"
