[package]
name = "webshot"
version = "0.1.0"
edition = "2021"
publish = false

[dependencies]
url = "2"
image = "0.25"
clap = { version = "4", features = ["derive"] }
serde = { version = "1", features = ["derive"] }
serde_json = "1"
