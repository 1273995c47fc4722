[package]
name = "dilla_renderer"
version = "0.1.0"
edition = "2021"
publish = false

[dependencies]
minijinja = "*"
serde_json = "*"
clap = { version = "*", features = ["derive"] }
html-minifier = "*"
html_parser = "*"
