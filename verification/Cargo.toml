[package]
name = "scout_core"
version = "0.1.0"
edition = "2021"
publish = false

[dependencies]
chrono = { version = "=0.4.45", default-features = false, features = ["clock", "std"] }
pulldown-cmark = { version = "0.11", default-features = false }
serde = { version = "=1.0.229", features = ["derive"] }
serde_json = "=1.0.154"
zip = { version = "=2.6.1", default-features = false, features = ["deflate"] }
