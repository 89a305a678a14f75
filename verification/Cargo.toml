[package]
name = "authz_core"
version = "0.1.0"
edition = "2021"
publish = false

[dependencies]
rand = "0.8"
data-encoding = "2"
url = "2"
serde_json = "1"

[dev-dependencies]
serde_urlencoded = "0.7"
