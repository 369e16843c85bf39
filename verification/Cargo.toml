[package]
name = "phantomat"
version = "0.1.0"
edition = "2021"
publish = false

[dependencies]
image = { version = "=0.25.5", default-features = false, features = ["png"] }
arrow = { version = "53", default-features = false }
wgpu = "23"
bytemuck = { version = "1", features = ["derive"] }
glam = "0.29"
pollster = "0.4"
palette = "0.7"
thiserror = "2"
clap = { version = "4", features = ["derive"] }
chrono = "0.4"
pyo3 = "0.22"
numpy = "0.22"
ndarray = "0.16"
wasm-bindgen = "0.2"
js-sys = "0.3"
web-sys = { version = "0.3", features = ["HtmlCanvasElement", "Window", "Performance"] }
console_error_panic_hook = "0.1"
