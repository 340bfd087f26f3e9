[package]
name = "ruggine"
version = "0.1.0"
edition = "2021"
publish = false

[dependencies]
anyhow = "*"
axum = { version = "*", features = ["ws"] }
dashmap = "*"
futures-util = "*"
serde = { version = "*", features = ["derive"] }
serde_json = "*"
sha2 = "*"
sqlx = { version = "*", default-features = false, features = ["runtime-tokio", "sqlite"] }
time = { version = "*", features = ["formatting"] }
tokio = { version = "*", features = ["rt-multi-thread", "macros", "sync", "net"] }
tracing = "*"
uuid = { version = "*", features = ["v4"] }
