[package]
name = "patch_updater"
version = "0.1.0"
edition = "2021"
publish = false

[dependencies]
anyhow = "1"
reqwest = { version = "0.12", features = ["blocking"] }
semver = "1"
zip = { version = "2", default-features = false, features = ["deflate"] }
