[package]
name = "mitre_assistant"
version = "0.1.0"
edition = "2021"
publish = false

[dependencies]
dirs = "*"
fs2 = "0.4"
prettytable-rs = "*"
serde = { version = "1", features = ["derive"] }
serde_derive = "1"
serde_json = "1"
