[package]
name = "zks_tunnel"
version = "0.1.0"
edition = "2021"
publish = false

[dependencies]
bytes = "=1.12.1"
crossbeam-queue = "=0.3.14"
sha2 = "=0.10.9"
hex = "=0.4.3"
getrandom = "=0.2.17"
tokio = { version = "=1.54.1", features = ["full"] }
tokio-tungstenite = "=0.21.0"
futures = "=0.3.34"
tracing = "=0.1.44"
tracing-subscriber = "=0.3.23"
clap = { version = "=4.6.7", features = ["derive"] }
serde = { version = "=1.0.229", features = ["derive"] }
serde_json = "=1.0.154"
thiserror = "=1.0.69"
rand = "=0.8.8"
libc = "=0.2.191"
tun-rs = { version = "=2.8.13", features = ["async"] }
worker = "*"
wasm-bindgen-futures = "0.4"
web-sys = { version = "0.3", features = ["Headers", "Request", "RequestInit", "Response"] }
