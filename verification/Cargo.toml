[package]
name = "pdf_ruin"
version = "0.1.0"
edition = "2021"
publish = false

[dependencies]
anyhow = "*"
clap = { version = "*", features = ["derive"] }
csv = "*"
image = "*"
imageproc = "*"
pdfium-render = "*"
serde = { version = "*", features = ["derive"] }
