[package]
name = "web_filters"
version = "0.1.0"
edition = "2021"
publish = false

[dependencies]
ntex = "*"
