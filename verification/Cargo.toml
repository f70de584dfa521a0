[package]
name = "splits"
version = "0.1.0"
edition = "2021"
publish = false

[dependencies]
serde = { version = "1", features = ["derive"] }
toml = "0.8"
tokio = { version = "1", features = ["macros", "rt-multi-thread", "net", "sync"] }
axum = "0.7"
tower-http = { version = "0.5", features = ["fs"] }
sqlx = { version = "0.8", default-features = false, features = ["sqlite", "runtime-tokio"] }
serenity = "0.12"
poise = "0.6"
