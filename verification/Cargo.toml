[package]
name = "dummy_rollup"
version = "0.1.0"
edition = "2021"
publish = false

[dependencies]
celestia-rpc = "=1.3.0"
celestia-types = "=1.3.0"
chrono = { version = "=0.4.45", features = ["serde"] }
futures = "=0.3.34"
js-sys = "0.3"
log = "0.4"
serde = { version = "=1.0.229", features = ["derive"] }
serde_json = "=1.0.154"
thiserror = "=2.0.21"
tokio = { version = "=1.54.1", features = ["macros", "rt-multi-thread", "net", "sync", "time", "io-std", "io-util"] }
tokio-tungstenite = "=0.30.0"
uuid = { version = "=1.29.0", features = ["v4"] }
wasm-bindgen = "0.2"
wasm-logger = "0.2"
web-sys = { version = "0.3", features = ["WebSocket", "MessageEvent", "ErrorEvent", "HtmlElement", "MouseEvent", "DomRect", "Element"] }
yew = { version = "=0.23.0", features = ["csr"] }
