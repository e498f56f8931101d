[package]
name = "bunnybot"
version = "0.1.0"
edition = "2021"
publish = false

[dependencies]
serde = { version = "1", features = ["derive"] }
serde_json = "1"
reqwest = { version = "0.12", default-features = false, features = ["blocking"] }
chrono = "0.4"
rand = "0.8"
structopt = "0.3"
scheduler = "0.1"
