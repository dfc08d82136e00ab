[package]
name = "canvas_render"
version = "0.1.0"
edition = "2021"
publish = false

[dependencies]
tiny-skia = "0.8"
rusttype = "0.9"
fastblur = "*"
serde = { version = "1", features = ["derive"] }
serde_json = "1"
once_cell = "1"
wasm-bindgen = "0.2"
