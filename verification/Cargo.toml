[package]
name = "pact_engine"
version = "0.1.0"
edition = "2021"
publish = false

[dependencies]
serde = { version = "*", features = ["derive"] }
serde_json = "*"
sxd-document = "*"
regex = "*"
lenient_semver = "*"
uuid = { version = "*", features = ["v4"] }
