[package]
name = "project_catalog"
version = "0.1.0"
edition = "2021"
publish = false

[dependencies]
actix-cors = "0.5"
actix-files = "0.5"
actix-multipart = "0.3"
actix-web = { version = "3", default-features = false }
actix-web-grants = "2"
actix-web-httpauth = "0.5"
anyhow = "1"
futures = "0.3"
mime_guess = "2"
serde = { version = "1", features = ["derive"] }
serde_json = "1"
