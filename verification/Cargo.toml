[package]
name = "formawasm"
version = "0.1.0"
edition = "2021"
publish = false

[dependencies]
tempfile = "=3.27.0"
thiserror = "=2.0.21"
wasm-encoder = "=0.263.0"
wit-component = "=0.263.0"
wit-parser = "=0.263.0"

[dev-dependencies]
wasmi = { version = "0.40", default-features = false, features = ["std"] }
