[package]
name = "g600"
version = "0.1.0"
edition = "2021"
publish = false

[dependencies]
clap = { version = "4", features = ["derive"] }
enumset = { version = "1", features = ["serde"] }
hex = "0.4"
hidraw = "*"
serde = { version = "1", features = ["derive"] }
serde_yaml = "0.9"
static_assertions = "1"
