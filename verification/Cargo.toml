[package]
name = "pj"
version = "0.1.0"
edition = "2021"
publish = false

[dependencies]
clap = { version = "3.2", features = ["cargo"] }
serde = { version = "1", features = ["derive"] }
toml = "0.5"
