[package]
name = "opencc-rust"
version = "0.1.0"
edition = "2021"
publish = false

[dependencies]
xmltree = { version = "=0.10.3", features = ["attribute-order"] }
