[package]
name = "logo_session"
version = "0.1.0"
edition = "2021"
publish = false

[dependencies]
console_error_panic_hook = "0.1"
image = { version = "0.25", default-features = false, features = ["bmp", "ico", "jpeg", "png"] }
lazy_static = "1"
serde = { version = "1", features = ["derive"] }
toml = "*"
wasm-bindgen = "0.2"
web-sys = { version = "0.3", features = ["Document", "Element", "Node", "NodeList", "Window"] }
