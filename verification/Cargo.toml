[package]
name = "wit-bindgen-zig"
version = "0.1.0"
edition = "2021"
publish = false

[dependencies]
anyhow = "1"
clap = { version = "4", features = ["derive"] }
heck = "0.4"
wit-bindgen-core = "0.16"
