[package]
name = "todo_core"
version = "0.1.0"
edition = "2021"
publish = false

[dependencies]
wasm-bindgen = "*"
console_error_panic_hook = "*"

[dependencies.web-sys]
version = "*"
features = ["Document", "Window", "Element", "Event", "EventTarget", "HtmlElement", "HtmlFormElement", "HtmlInputElement", "Node", "CssStyleDeclaration", "DomTokenList", "console"]
