[package]
name = "dom_sanitizer"
version = "0.1.0"
edition = "2021"
publish = false

[dependencies]
dom_query = "*"
html5ever = "*"
tendril = "*"
