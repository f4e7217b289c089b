[package]
name = "peer_engine"
version = "0.1.0"
edition = "2021"
publish = false

[dependencies]
futures = "0.3"
once_cell = "1"
prometheus = { version = "0.13", default-features = false }
rand = "0.8"
tokio = { version = "1", features = ["macros", "rt", "sync", "time"] }
