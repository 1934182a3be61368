[package]
name = "featureprobe"
version = "0.1.0"
edition = "2021"
publish = false

[dependencies]
sha1 = "*"
regex = "*"
semver = "*"
serde = { version = "*", features = ["derive"] }
serde_json = "*"
ureq = "*"
url = "*"
