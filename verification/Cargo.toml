[package]
name = "mini_todo"
version = "0.1.0"
edition = "2021"
publish = false

[dependencies]
chrono = "0.4"
sha2 = "0.10"
flate2 = "1"
rand = "0.8"
serde = { version = "1", features = ["derive"] }
serde_json = "1"
rusqlite = { version = "*", features = ["bundled"] }
zip = { version = "*", default-features = false, features = ["deflate"] }
base64 = "*"
dirs = "*"
urlencoding = "2"
reqwest = { version = "0.12", default-features = false, features = ["blocking", "json", "rustls-tls"] }
