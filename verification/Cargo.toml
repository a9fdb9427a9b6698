[package]
name = "cot_cli"
version = "0.1.0"
edition = "2021"
publish = false

[dependencies]
anstyle = "=1.0.14"
anyhow = "=1.0.104"
cargo_toml = "=1.0.1"
