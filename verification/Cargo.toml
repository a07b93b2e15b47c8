[package]
name = "pektin_api"
version = "0.1.0"
edition = "2021"
publish = false

[dependencies]
actix-cors = "*"
actix-web = "=4.15.0"
anyhow = "*"
deadpool-redis = "=0.23.1"
dotenv = "*"
mime = "*"
parking_lot = "=0.12.5"
reqwest = { version = "*", default-features = false, features = ["json"] }
serde = { version = "=1.0.229", features = ["derive"] }
serde_json = "*"
