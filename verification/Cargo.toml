[package]
name = "prpr_client"
version = "0.1.0"
edition = "2021"
publish = false

[dependencies]
wasm-bindgen = "*"
web-sys = { version = "*", features = ["console", "CssStyleDeclaration", "HtmlElement", "Element", "Node", "CanvasRenderingContext2d", "WebGl2RenderingContext"] }
