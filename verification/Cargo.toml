[package]
name = "odometer"
version = "0.1.0"
edition = "2021"
publish = false

[dependencies]
semver = "1"
toml_edit = "*"
serde_json = "1"
serde = { version = "1", features = ["derive"] }
clap = { version = "4", features = ["derive"] }
ignore = "*"
anyhow = "1"
