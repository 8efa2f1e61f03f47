[package]
name = "wmcssh"
version = "0.1.0"
edition = "2021"
publish = false

[dependencies]
base64 = "0.22"
serde = { version = "1", features = ["derive"] }
serde_json = "1"
sqlx = { version = "0.8", default-features = false, features = ["sqlite", "runtime-tokio", "macros"] }
ssh2 = "0.9"
tokio = { version = "1", features = ["sync", "rt", "rt-multi-thread", "time"] }
uuid = { version = "1", features = ["v4"] }
chrono = "0.4"
anyhow = "1"
async-trait = "0.1"
