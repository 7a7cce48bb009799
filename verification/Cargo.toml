[package]
name = "linkcheck"
version = "0.1.0"
edition = "2021"
publish = false

[dependencies]
percent-encoding = "2"
unicode-segmentation = "1"
serde = { version = "1", features = ["derive"] }
