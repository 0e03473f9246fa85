[package]
name = "rust_iam"
version = "0.1.0"
edition = "2021"
publish = false

[dependencies]
wildcard = "=0.3.0"
serde = { version = "=1.0.229", features = ["derive"] }
serde_json = "=1.0.154"
sqlx = { version = "=0.8.6", default-features = false, features = ["postgres", "json"] }
sea-orm = { version = "=1.1.20", default-features = false, features = ["with-json", "postgres-array"] }
