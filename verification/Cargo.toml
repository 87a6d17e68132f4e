[package]
name = "mdlint_rules"
version = "0.1.0"
edition = "2021"
publish = false

[dependencies]
comrak = { version = "*", default-features = false }
regex = "1"
serde = { version = "1", features = ["derive"] }
toml = "*"
