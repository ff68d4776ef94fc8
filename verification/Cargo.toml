[package]
name = "helptags"
version = "0.1.0"
edition = "2021"
publish = false

[dependencies]
fancy-regex = "*"
pulldown-cmark = "*"
serde = { version = "*", features = ["derive"] }
serde_json = "*"
ureq = "2"
