[package]
name = "mediaplayerofdoom"
version = "0.1.0"
edition = "2021"
publish = false

[dependencies]
regex = "=1.13.1"
rand = "=0.9.5"
serde = { version = "=1.0.229", features = ["derive"] }
serde_json = "=1.0.154"
image = { version = "0.25", default-features = false, features = ["jpeg", "png"] }
