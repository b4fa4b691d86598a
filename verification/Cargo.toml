[package]
name = "tagz"
version = "0.1.0"
edition = "2021"
publish = false

[dependencies]
rusqlite = { version = "*", features = ["bundled"] }
actix-web = "4"
serde = { version = "*", features = ["derive"] }
serde_json = "*"
clap = "4"
futures = "0.3"
