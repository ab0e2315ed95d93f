[package]
name = "wotold_core"
version = "0.1.0"
edition = "2021"
publish = false

[dependencies]
serde = { version = "1", features = ["derive"] }
serde_json = "1"
chrono = "0.4"
uuid = { version = "1", features = ["v4"] }
log = "0.4"
hound = "3"
tokio = { version = "1", features = ["rt-multi-thread", "macros", "fs", "sync", "time"] }
sqlx = { version = "0.8", default-features = false, features = ["sqlite", "runtime-tokio", "macros", "migrate"] }
