[package]
name = "parside"
version = "0.1.0"
edition = "2021"
publish = false

[dependencies]
cesride = "*"
indexmap = "*"
serde_json = "1"
thiserror = "1"
