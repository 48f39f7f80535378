[package]
name = "todorpc"
version = "0.1.0"
edition = "2021"
publish = false

[dependencies]
anyhow = "1"
bincode = "1"
futures = "0.3"
js-sys = "0.3"
log = "0.4"
native-tls = "0.2"
quinn = "0.6"
serde = { version = "1", features = ["derive"] }
tokio = { version = "0.2", features = ["full"] }
tokio-tls = "0.3"
tokio-tungstenite = "0.11"
tungstenite = "0.11"
wasm-bindgen = "0.2"
wasm-bindgen-futures = "0.4"
web-sys = { version = "0.3", features = ["BinaryType", "CloseEvent", "EventTarget", "MessageEvent", "WebSocket", "Window"] }
