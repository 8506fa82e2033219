[package]
name = "factorio_printer"
version = "0.1.0"
edition = "2021"
publish = false

[dependencies]
base64 = "0.21"
clap = "4"
csv = "1"
flate2 = "1"
image = "0.24"
serde = { version = "1", features = ["derive"] }
serde_json = "1"
