[package]
name = "find_similar"
version = "0.1.0"
edition = "2021"
publish = false

[dependencies]
rapidfuzz = "0.5"
rayon = "1"
napi = { version = "*", features = ["async"] }
napi-derive = "*"
serde = { version = "1", features = ["derive"] }
csv = "1"
sqlx = { version = "0.8", features = ["runtime-tokio", "mysql", "postgres", "sqlite"] }
