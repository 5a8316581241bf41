[package]
name = "static_id"
version = "0.1.0"
edition = "2021"
publish = false

[dependencies]
once_cell = "1"
rustc-hash = "2"
serde = { version = "1", features = ["derive"] }

[dev-dependencies]
serde_json = "1"
