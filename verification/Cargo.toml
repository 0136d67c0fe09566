[package]
name = "lunar_lite"
version = "0.1.0"
edition = "2021"
publish = false

[dependencies]
serde = { version = "1", features = ["derive"] }
thiserror = "*"
tyme4rs = "=1.5.0"

[dev-dependencies]
serde_json = "1"
