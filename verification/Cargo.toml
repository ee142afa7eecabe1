[package]
name = "dtasmtime"
version = "0.1.0"
edition = "2021"
publish = false

[dependencies]
wasmtime = "=47.0.4"
wasmtime-wasi = "=47.0.4"
