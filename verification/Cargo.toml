[package]
name = "pong_kernel"
version = "0.1.0"
edition = "2021"
publish = false

[dependencies]
noto-sans-mono-bitmap = "0.2"
bootloader_api = "0.11"
pc-keyboard = "0.7"
x86_64 = { version = "0.15", default-features = false, features = ["instructions"] }
