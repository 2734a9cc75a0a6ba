[package]
name = "libbuildpack"
version = "0.1.0"
edition = "2021"
publish = false

[dependencies]
log = "0.4"
toml = { version = "0.5", features = ["preserve_order"] }
