[package]
name = "logo_test"
version = "0.1.0"
edition = "2021"
publish = false

[dependencies]
url = "=2.5.8"
serde_json = "=1.0.151"
serde = { version = "=1.0.229", features = ["derive"] }
anyhow = "=1.0.104"
reqwest = { version = "=0.13.5", default-features = false, features = ["json", "blocking"] }
mysql = { version = "=28.0.3", default-features = false, features = ["minimal-rust", "derive", "buffer-pool"] }
toolforge = { version = "=5.8.0", features = ["mysql"] }
