[package]
name = "plemeshko"
version = "0.1.0"
edition = "2021"
publish = false

[dependencies]
serde = { version = "1", features = ["derive"] }
serde_json = { version = "1", features = ["raw_value"] }
either = "1"
thiserror = "1"
anyhow = "1"
