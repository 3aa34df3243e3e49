[package]
name = "imagefind"
version = "0.1.0"
edition = "2021"
publish = false

[dependencies]
image = { version = "0.24.9", default-features = false, features = ["png"] }
rsautogui = "=0.2.2"
