[package]
name = "sila"
version = "0.3.2"
edition = "2021"
publish = false

[dependencies]
serde = { version = "1", features = ["derive"] }
serde_yaml = "0.8"
structopt = "0.3"
