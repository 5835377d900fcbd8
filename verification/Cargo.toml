[package]
name = "sea_cursor"
version = "0.1.0"
edition = "2021"
publish = false

[dependencies]
sea-query = { version = "0.30", features = ["thread-safe", "with-json"] }
serde_json = "1"
