[package]
name = "opentainer_core"
version = "0.1.0"
edition = "2021"
publish = false

[dependencies]
bollard = "*"
futures-util = "*"
log = "*"
serde = { version = "*", features = ["derive"] }
serde_json = "*"
tokio = { version = "*", features = ["full"] }
