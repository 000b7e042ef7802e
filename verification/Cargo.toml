[package]
name = "doc_schema"
version = "0.1.0"
edition = "2021"
publish = false

[dependencies]
serde = { version = "1", features = ["derive"] }
ulid = "1"
utoipa = "3"
