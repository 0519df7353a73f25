[package]
name = "conduit_client"
version = "0.1.0"
edition = "2021"
publish = false

[dependencies]
serde_json = "1"
url = "2"
reqwest = { version = "0.12", default-features = false, features = ["blocking"] }
clap = { version = "4", features = ["derive"] }
