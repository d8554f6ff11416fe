[package]
name = "gridref"
version = "0.1.0"
edition = "2021"
publish = false

[dependencies]
serde = { version = "*", features = ["derive"] }

[dev-dependencies]
gridish = "*"
