[package]
name = "actions_core"
version = "0.1.0"
edition = "2021"
publish = false

[dependencies]
getrandom = "0.2"
serde_json = "1"
ureq = { version = "2", features = ["json"] }
