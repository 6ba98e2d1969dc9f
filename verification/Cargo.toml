[package]
name = "plant"
version = "0.1.0"
edition = "2021"
publish = false

[dependencies]
regex = "=1.13.1"
bytemuck = { version = "=1.25.2", features = ["derive"] }
anyhow = "1"
clap = { version = "=4.6.7", features = ["derive"] }
glam = { version = "=0.34.2", features = ["bytemuck"] }
wgpu = "=30.0.1"
winit = "=0.30.13"
egui = "=0.37.0"
egui-wgpu = "=0.37.0"
egui-winit = { version = "=0.37.0", default-features = false, features = ["links"] }
png = "=0.18.1"
pollster = "=1.0.1"
web-time = "=1.1.0"
wasm-bindgen = "=0.2.130"
wasm-bindgen-futures = "=0.4.80"
js-sys = "=0.3.107"
web-sys = { version = "=0.3.107", features = ["Document", "DomRect", "Element", "HtmlCanvasElement", "MediaQueryList", "ReadableStream", "ReadableStreamDefaultReader", "Response", "Window", "WritableStream", "WritableStreamDefaultWriter"] }
console_error_panic_hook = "0.1"
