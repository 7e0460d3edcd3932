[package]
name = "yew_json_viewer"
version = "0.1.0"
edition = "2021"
publish = false

[dependencies]
serde_json = { version = "1", features = ["preserve_order", "arbitrary_precision"] }
json5 = "0.4"
url = "2"
yew = { version = "0.21", features = ["csr"] }
gloo = "0.10"
wasm-bindgen = "0.2"
js-sys = "0.3"
web-sys = { version = "0.3", features = ["Document", "Element", "EventTarget", "HtmlCollection", "HtmlTextAreaElement", "InputEvent", "KeyboardEvent", "MouseEvent", "Window"] }
stylist = "0.13"
once_cell = "1"
