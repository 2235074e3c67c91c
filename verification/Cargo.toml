[package]
name = "lachesis"
version = "0.1.0"
edition = "2021"
publish = false

[dependencies]
regex = "1"
semver = "1"
serde_json = "1"
serde = { version = "1", features = ["derive"] }
