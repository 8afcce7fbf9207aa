[package]
name = "fixmyhalo"
version = "0.1.0"
edition = "2021"
publish = false

[dependencies]
image = { version = "0.25", default-features = false, features = ["png", "jpeg"] }
clap = { version = "4", features = ["derive"] }
glob = "0.3"
indicatif = { version = "0.17", features = ["rayon"] }
rayon = "1"
walkdir = "2"
wasm-bindgen = "0.2"
