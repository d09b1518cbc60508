[package]
name = "codex-text-encoding"
version = "0.1.0"
edition = "2021"
publish = false

[dependencies]
encoding_rs = "*"
globset = "*"
serde = { version = "*", features = ["derive"] }
schemars = "*"
thiserror = "*"
toml = "*"
