[package]
name = "disma"
version = "0.1.0"
edition = "2021"
publish = false

[dependencies]
colored = "2"
reqwest = { version = "0.11", features = ["blocking", "json"] }
serde = { version = "1", features = ["derive"] }
serde_repr = "0.1"
serde_yaml = "0.9"
