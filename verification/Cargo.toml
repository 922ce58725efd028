[package]
name = "esprinkler"
version = "0.1.0"
edition = "2021"
publish = false

[dependencies]
anyhow = "1"
esp-idf-svc = "*"
log = "0.4"
serde = { version = "1", features = ["derive"] }
toml = "*"
