[package]
name = "memsched"
version = "0.1.0"
edition = "2021"
publish = false

[dependencies]
sha2 = "*"
uuid = { version = "*", features = ["v4"] }
ulid = "*"
chrono = "*"
tokio = { version = "*", features = ["full"] }
anyhow = "*"
serde = { version = "*", features = ["derive"] }
toml = "*"
clap = { version = "*", features = ["derive"] }
redis = { version = "*", features = ["r2d2"] }
r2d2 = "*"
csv = "*"
