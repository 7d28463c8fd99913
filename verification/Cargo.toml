[package]
name = "piecewise"
version = "0.1.0"
edition = "2021"
publish = false

[dependencies]
ordered-float = { version = "=5.5.0", features = ["serde"] }
serde = { version = "=1.0.229", features = ["derive"] }
thiserror = "=2.0.21"

[dev-dependencies]
serde_json = "=1.0.151"
