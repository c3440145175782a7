[package]
name = "mantis_ta"
version = "0.5.1"
edition = "2021"
publish = false

[dependencies]
serde = { version = "1", features = ["derive"] }
thiserror = "1"
