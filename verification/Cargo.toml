[package]
name = "project_overview"
version = "0.1.0"
edition = "2021"
publish = false

[dependencies]
iter_tools = "*"
serde = { version = "*", features = ["derive"] }
ron = "*"
