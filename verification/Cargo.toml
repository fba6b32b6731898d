[package]
name = "flutter_vulkan_native"
version = "0.1.0"
edition = "2021"
publish = false

[dependencies]
naga = { version = "24", features = ["glsl-in", "wgsl-out"] }
wgpu = "24"
bytemuck = "1"
log = "0.4"
env_logger = "0.11"
pollster = "0.4"
android_logger = "0.14"
wasm-bindgen = "0.2"
wasm-bindgen-futures = "0.4"
js-sys = "0.3"
web-sys = { version = "0.3", features = ["Window", "Performance", "HtmlCanvasElement"] }
console_error_panic_hook = "0.1"
console_log = "1"
