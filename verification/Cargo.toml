[package]
name = "axum_asset"
version = "0.1.0"
edition = "2021"
publish = false

[dependencies]
axum = "*"
hex = "*"
mime_guess = "*"
sha2 = "*"
walkdir = "*"
