[package]
name = "roomkit"
version = "0.1.0"
edition = "2021"
publish = false

[dependencies]
regex = "1"
bcrypt = "0.15"
serde = { version = "1", features = ["derive"] }
