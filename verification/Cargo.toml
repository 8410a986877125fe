[package]
name = "squad_translate"
version = "0.1.0"
edition = "2021"
publish = false

[dependencies]
deepl-api = "*"
indicatif = "*"
serde = { version = "*", features = ["derive"] }
serde_json = "*"
