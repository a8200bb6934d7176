[package]
name = "textlayer"
version = "0.1.0"
edition = "2021"
publish = false

[dependencies]
pdfium-render = "*"
image = "*"
axum = { version = "*", features = ["multipart"] }
tokio = { version = "*", features = ["macros", "rt-multi-thread", "net"] }
