[package]
name = "aiken"
version = "0.1.0"
edition = "2021"
publish = false

[dependencies]
clap = { version = "4", features = ["derive"] }
hex = "0.4"
miette = { version = "5", features = ["fancy"] }
serde = { version = "1", features = ["derive"] }
serde_json = "1"
