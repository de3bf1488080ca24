[package]
name = "rustaria"
version = "0.1.0"
edition = "2021"
publish = false

[dependencies]
crossbeam = "0.8"
rectangle-pack = "0.4"
serde = { version = "1", features = ["derive"] }
toml = "0.5"
