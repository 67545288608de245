[package]
name = "echelon_lib"
version = "0.1.0"
edition = "2021"
publish = false

[dependencies]
ruma = { version = "*", default-features = false }
tokio = { version = "*", features = ["rt", "rt-multi-thread", "sync", "time", "macros"] }
serde = { version = "*", features = ["derive"] }
serde_json = "*"
