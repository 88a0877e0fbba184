[package]
name = "rustdoc_markdown"
version = "0.1.0"
edition = "2021"
publish = false

[dependencies]
linkify = "*"
urlencoding = "*"
rustdoc-json = "*"
rustdoc-types = "*"
serde_json = "*"
