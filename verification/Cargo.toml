[package]
name = "zip_templates"
version = "0.1.0"
edition = "2021"
publish = false

[dependencies]
rustc-hash = "2"
serde_json = "1"
