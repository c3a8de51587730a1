[package]
name = "ad_server"
version = "0.1.0"
edition = "2021"
publish = false

[dependencies]
isocountry = "0.3"
chrono = "0.4"
tokio = { version = "1", features = ["macros", "rt-multi-thread", "net", "sync", "time"] }
tokio-postgres = "0.7"
bb8 = "0.8"
bb8-postgres = "0.8"
axum = "0.7"
serde = { version = "1", features = ["derive"] }
