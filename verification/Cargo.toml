[package]
name = "dpm"
version = "0.1.0"
edition = "2021"
publish = false

[dependencies]
confy = { version = "*", default-features = false, features = ["yaml_conf"] }
reqwest = { version = "*", default-features = false, features = ["blocking", "rustls-tls"] }
serde = { version = "1", features = ["derive"] }
serde_derive = "1"
users = "0.11"
