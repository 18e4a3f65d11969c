[package]
name = "image_proc"
version = "0.1.0"
edition = "2021"
publish = false

[dependencies]
image = { version = "0.24", default-features = false, features = ["png", "jpeg", "gif", "bmp"] }
rodio = { version = "0.17", default-features = false }
