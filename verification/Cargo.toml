[package]
name = "apex_voice_switcher"
version = "0.1.0"
edition = "2021"
publish = false

[dependencies]
anyhow = "1"
serde = { version = "1", features = ["derive"] }
serde_json = "1"
ureq = "3"
zip = { version = "*", default-features = false, features = ["deflate"] }
