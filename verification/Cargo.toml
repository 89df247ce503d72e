[package]
name = "yaml_json"
version = "0.1.0"
edition = "2021"
publish = false

[dependencies]
clap = { version = "3", features = ["derive"] }
itertools = "*"
json5 = "*"
regex = "*"
serde = "*"
serde_json = "*"
serde_yaml = "*"
wax = "*"
