[package]
name = "task_store"
version = "0.1.0"
edition = "2021"
publish = false

[dependencies]
sled = "0.34"
rocket = { version = "0.5", features = ["json"] }
rocket_cors = "0.6"
serde = { version = "1", features = ["derive"] }
serde_json = "1"

[dev-dependencies]
tempdir = "0.3"
