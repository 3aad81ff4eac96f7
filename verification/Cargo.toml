[package]
name = "backend"
version = "0.1.0"
edition = "2021"
publish = false

[dependencies]
serde = { version = "1", features = ["derive"] }
serde_json = "1"
actix-web = { version = "4", default-features = false, features = ["macros"] }
actix-cors = "*"
mongodb = "*"
reqwest = { version = "*", default-features = false, features = ["json", "rustls-tls"] }
