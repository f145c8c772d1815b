[package]
name = "cliclack_yaml"
version = "0.1.1"
edition = "2021"
publish = false

[dependencies]
anyhow = "1"
cliclack = "*"
console = "*"
regex = "1"
serde = { version = "1", features = ["derive"] }
serde_json = "1"
serde-saphyr = "*"
