[package]
name = "md2blog"
version = "0.1.0"
edition = "2021"
publish = false

[dependencies]
comrak = { version = "=0.55.0", default-features = false }
arc-swap = "=1.9.3"
axum = "=0.8.9"
glob = "=0.3.4"
rust-yaml = { version = "=1.1.0", features = ["serde"] }
serde = { version = "=1.0.229", features = ["derive"] }
tokio = { version = "=1.54.1", features = ["macros", "rt-multi-thread", "net", "io-std", "io-util", "sync"] }
