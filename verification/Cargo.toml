[package]
name = "raygeo"
version = "0.1.0"
edition = "2021"
publish = false

[dependencies]
glam = "0.30"
numpy = "0.28"
pyo3 = { version = "0.28", features = ["abi3-py310", "extension-module"] }
serde = { version = "1", features = ["derive"] }
serde_json = "1"
