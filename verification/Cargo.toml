[package]
name = "grid_games"
version = "0.1.0"
edition = "2021"
publish = false

[dependencies]
rand = "0.8"
js-sys = "0.3"
wasm-bindgen = "0.2"
web-sys = { version = "0.3", features = ["Window", "Document", "Element", "HtmlElement", "KeyboardEvent", "Node", "console"] }
