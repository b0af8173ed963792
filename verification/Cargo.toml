[package]
name = "blockstore"
version = "0.1.0"
edition = "2021"
publish = false

[dependencies]
rand = "=0.8.8"
lru_time_cache = "=0.11.11"
hex = "=0.4.3"
futures = "=0.3.34"
tokio = { version = "=1.54.1", features = ["rt", "rt-multi-thread", "sync"] }
semver = "1"
Inflector = { version = "0.11", default-features = false }
