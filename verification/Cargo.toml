[package]
name = "release_manifest"
version = "0.1.0"
edition = "2021"
publish = false

[dependencies]
lru_time_cache = "0.11"
reqwest = { version = "0.12", default-features = false, features = ["json"] }
rocket = { version = "0.5", features = ["json"] }
