[package]
name = "dapr_wasm"
version = "0.1.0"
edition = "2021"
publish = false

[dependencies]
image = "0.24"
base64 = "0.13"
hyper = { version = "0.14", features = ["full"] }
tokio = { version = "1", features = ["full"] }
serde = { version = "1", features = ["derive"] }
serde_json = "1"
chrono = "0.4"
anyhow = "1"
warp = { version = "0.3", default-features = false }
bytes = "1"
pretty_env_logger = "0.4"
mysql_async = { version = "*", default-features = false }
wasmedge-sys = "0.9"
wasmedge-types = "*"
wasmedge_tensorflow_interface = "*"
wasmedge_http_req = "*"
wasm-bindgen = "0.2"
