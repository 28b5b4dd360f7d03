[package]
name = "invoker_explore"
version = "0.1.0"
edition = "2021"
publish = false

[dependencies]
serde = { version = "*", features = ["derive"] }
serde_json = "*"
anyhow = "*"
thiserror = "*"
futures-util = "*"
pin-project-lite = "*"
