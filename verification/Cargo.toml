[package]
name = "oapi"
version = "0.1.0"
edition = "2021"
publish = false

[dependencies]
sppparse = "*"
serde = { version = "1", features = ["derive"] }
serde_json = "1"
url = { version = "2", features = ["serde"] }
getset = "*"
semver = "*"
