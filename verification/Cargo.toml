[package]
name = "weaverd"
version = "0.1.0"
edition = "2021"
publish = false

[dependencies]
serde_json = "1"
lsp-types = "0.97"
url = "2"
tracing = "0.1"
