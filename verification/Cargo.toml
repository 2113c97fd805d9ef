[package]
name = "rust-core"
version = "0.1.0"
edition = "2021"
publish = false

[dependencies]
arrow = { version = "*", default-features = false }
arrow-array = "*"
arrow-csv = "*"
arrow-ipc = "*"
arrow-schema = "*"
js-sys = "*"
serde_json = "*"
wasm-bindgen = "*"
wasm-bindgen-futures = "*"
