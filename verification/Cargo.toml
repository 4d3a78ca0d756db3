[package]
name = "labnotes"
version = "0.1.0"
edition = "2021"
publish = false

[dependencies]
pulldown-cmark = { version = "0.9", default-features = false }
regex = "1"
katex = "*"
maud = "*"
clap = { version = "4", features = ["derive"] }
rocket = "0.5"
