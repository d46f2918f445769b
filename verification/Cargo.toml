[package]
name = "renet2"
version = "0.1.0"
edition = "2021"
publish = false

[dependencies]
anyhow = "1"
async-channel = "=2.5.0"
bevy_app = { version = "0.14", default-features = false }
bevy_ecs = { version = "0.14", default-features = false }
bevy_time = { version = "0.14", default-features = false }
bytes = "=1.12.1"
crossbeam = "=0.8.5"
form_urlencoded = "=1.2.2"
futures = "0.3"
hmac-sha256 = "=1.1.15"
http = "=1.5.0"
js-sys = "0.3"
log = "0.4"
quinn = { version = "0.11", default-features = false, features = ["runtime-tokio", "rustls"] }
rcgen = { version = "=0.13.2", default-features = false, features = ["crypto", "ring", "pem"] }
rustls = { version = "0.23", default-features = false, features = ["ring", "std"] }
rustls-pki-types = "1"
serde = { version = "1", features = ["derive"] }
serde_json = "=1.0.154"
time = "=0.3.55"
tokio = { version = "=1.54.1", features = ["sync", "rt", "rt-multi-thread", "net", "time", "macros", "io-util"] }
tokio-tungstenite = "0.24"
url = { version = "=2.5.8", features = ["serde"] }
urlencoding = "=2.1.3"
wasm-bindgen = "0.2"
wasm-bindgen-futures = "0.4"
web-sys = { version = "0.3", features = ["BinaryType", "CloseEvent", "ErrorEvent", "Event", "EventTarget", "MessageEvent", "WebSocket"] }
wtransport = { version = "0.6", features = ["quinn"] }
