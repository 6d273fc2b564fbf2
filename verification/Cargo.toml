[package]
name = "pingchu"
version = "0.1.0"
edition = "2021"
publish = false

[dependencies]
anyhow = "1"
humantime = "2"
poise = "0.3"
rand = "0.8"
regex = "1"
sea-orm = { version = "0.9", features = ["sqlx-sqlite", "runtime-tokio-rustls", "macros"] }
serde = { version = "1", features = ["derive"] }
serde_json = "1"
tokio = { version = "1", features = ["macros", "rt-multi-thread"] }
unicode-segmentation = "1"
