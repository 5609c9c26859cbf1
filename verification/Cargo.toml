[package]
name = "inline_units"
version = "0.1.0"
edition = "2021"
publish = false

[dependencies]
cargo_toml = "=1.0.1"
toml = "=1.1.7"
html5ever = "=0.39.0"
markup5ever_rcdom = "=0.39.0"
