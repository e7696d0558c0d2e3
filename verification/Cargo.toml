[package]
name = "bsroster"
version = "0.1.0"
edition = "2021"
publish = false

[dependencies]
minidom = "*"
serde = { version = "*", features = ["derive"] }
serde_json = "*"
