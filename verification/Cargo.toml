[package]
name = "vizsink"
version = "0.1.0"
edition = "2021"
publish = false

[dependencies]
axum = { version = "=0.8.9", features = ["ws"] }
clap = { version = "=4.6.7", features = ["derive"] }
color-eyre = "=0.6.5"
futures-util = { version = "=0.3.34", features = ["sink"] }
mime_guess = "=2.0.5"
serde = { version = "=1.0.229", features = ["derive"] }
serde_json = "=1.0.154"
tokio = { version = "=1.54.1", features = ["full"] }
tower-http = { version = "=0.6.11", features = ["fs"] }
wasm-bindgen = "=0.2.130"
web-sys = { version = "=0.3.107", features = ["CanvasRenderingContext2d", "Document", "DomRect", "Element", "Event", "EventTarget", "HtmlCanvasElement", "Location", "MessageEvent", "MouseEvent", "PointerEvent", "WebSocket", "WheelEvent", "Window", "console"] }
