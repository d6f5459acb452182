[package]
name = "flowy_ai"
version = "0.1.0"
edition = "2021"
publish = false

[dependencies]
serde_json = "1"
allo-isolate = "*"
tracing = "0.1"
