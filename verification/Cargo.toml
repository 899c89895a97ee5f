[package]
name = "chord_dht"
version = "0.1.0"
edition = "2021"
publish = false

[dependencies]
sha2 = "0.10"
actix-web = "4"
actix-multipart = "0.6"
tokio = { version = "1", features = ["full"] }
reqwest = { version = "0.11", default-features = false, features = ["json"] }
rusqlite = "0.31"
serde = { version = "1", features = ["derive"] }
serde_json = "1"
chrono = "0.4"
dotenv = "0.15"
futures = "0.3"
lazy_static = "1"
