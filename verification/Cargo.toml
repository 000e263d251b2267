[package]
name = "worker"
version = "0.1.0"
edition = "2021"
publish = false

[dependencies]
http = "=0.2.12"
axum = { version = "=0.5.17", default-features = false }
tower = "=0.4.13"
futures-util = "=0.3.34"
js-sys = "=0.3.106"
wasm-bindgen = "=0.2.129"
wasm-bindgen-futures = "=0.4.79"
wasm-bindgen-macro-support = "=0.2.129"
wasm-streams = "=0.2.3"
worker-sys = "=0.0.16"
pin-project = "=1.1.13"
thiserror = "=1.0.69"
matchit = "=0.4.6"
serde_json = "=1.0.154"
proc-macro2 = "=1.0.107"
quote = "=1.0.47"
syn = { version = "=1.0.109", features = ["full"] }
