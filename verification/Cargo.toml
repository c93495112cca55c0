[package]
name = "mlir_backend"
version = "0.1.0"
edition = "2021"
publish = false

[dependencies]
melior = "0.27"
mlir-sys = "220"
tracing = "0.1"
