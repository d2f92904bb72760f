[package]
name = "semrel"
version = "0.1.0"
edition = "2021"
publish = false

[dependencies]
regex = "*"
serde = { version = "*", features = ["derive"] }
serde_json = "*"
toml_edit = { version = "*", features = ["serde"] }
tempfile = "*"
clap = { version = "*", features = ["derive"] }
