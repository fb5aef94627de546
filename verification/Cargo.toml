[package]
name = "taurophone"
version = "0.1.0"
edition = "2021"
publish = false

[dependencies]
hound = "3.5"
chrono = { version = "0.4", features = ["serde"] }
serde = { version = "1", features = ["derive"] }
serde_json = "1"
dirs = "5"
log = "0.4"
cpal = "0.15"
rdev = "0.5"
arboard = "3"
tokio = { version = "1", features = ["rt", "macros"] }
reqwest = { version = "0.12", default-features = false, features = ["multipart", "json"] }
