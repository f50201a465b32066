[package]
name = "kelvane"
version = "0.1.0"
edition = "2021"
publish = false

[dependencies]
anyhow = "=1.0.104"
kstring = "=2.0.2"
serde_json = "=1.0.154"
tracing = "=0.1.44"
tract-onnx = "=0.21.12"
wasmtime = "=46.0.3"
wasmtime-wasi = "=46.0.3"
