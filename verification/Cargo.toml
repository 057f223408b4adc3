[package]
name = "chat_client"
version = "0.1.0"
edition = "2021"
publish = false

[dependencies]
serde_json = { version = "1", features = ["preserve_order"] }
yew = "0.19"
yew-agent = "0.1"
web-sys = { version = "0.3", features = ["HtmlInputElement", "KeyboardEvent", "MessageEvent", "WebSocket"] }
log = "0.4"
