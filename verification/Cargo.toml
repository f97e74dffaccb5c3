[package]
name = "wasm_bencher"
version = "1.0.0"
edition = "2021"
publish = false

[dependencies]
toml = "=1.1.7"
parity-wasm = "=0.45.0"
sp-maybe-compressed-blob = "=11.1.0"
cargo_metadata = "=0.23.1"
tempfile = "=3.27.0"
rand = "=0.10.3"
