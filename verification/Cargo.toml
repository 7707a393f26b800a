[package]
name = "netpath"
version = "0.1.0"
edition = "2021"
publish = false

[dependencies]
netdev = "=0.46.3"
reqwest = { version = "=0.13.5", default-features = false, features = ["blocking"] }
serde = { version = "=1.0.229", features = ["derive"] }
serde_json = "*"
