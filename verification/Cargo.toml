[package]
name = "darp"
version = "0.1.0"
edition = "2021"
publish = false

[dependencies]
anyhow = "1"
colored = "*"
dirs = "*"
serde = { version = "1", features = ["derive"] }
serde_json = "1"
