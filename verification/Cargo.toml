[package]
name = "formlogic_core"
version = "0.1.0"
edition = "2021"
publish = false

[dependencies]
indexmap = "2"
rustc-hash = "2"
serde_json = "1"
