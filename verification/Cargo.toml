[package]
name = "noteworthy"
version = "0.1.0"
edition = "2021"
publish = false

[dependencies]
indexmap = "1"
gray_matter = "0.2"
chrono = "0.4"
serde = { version = "1", features = ["derive"] }
serde_yaml = "0.8"
