[package]
name = "raccoon"
version = "0.1.0"
edition = "2021"
publish = false

[dependencies]
libloading = "=0.8.9"
serde_json = "1"
