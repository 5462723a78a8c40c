[package]
name = "fleetjobs"
version = "0.1.0"
edition = "2021"
publish = false

[dependencies]
tokio = { version = "*", features = ["rt-multi-thread", "macros", "sync", "time", "fs", "io-util"] }
serde = { version = "*", features = ["derive"] }
serde_json = "*"
anyhow = "*"
csv = "*"
sqlx = { version = "*", features = ["runtime-tokio", "sqlite"] }
