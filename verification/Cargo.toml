[package]
name = "basecamp"
version = "0.1.0"
edition = "2021"
publish = false

[dependencies]
oauth2 = { version = "=3.0.0", default-features = false, features = ["reqwest-010"] }
reqwest = { version = "=0.10.10", features = ["blocking", "json"] }
serde = { version = "=1.0.229", features = ["derive"] }
serde_json = "=1.0.154"
url = "=2.5.8"
