[package]
name = "mailcore"
version = "0.1.0"
edition = "2021"
publish = false

[dependencies]
md5 = "*"
chrono = "*"
serde = { version = "*", features = ["derive"] }
tokio = { version = "*", features = ["rt-multi-thread", "sync", "time", "macros"] }
anyhow = "*"
