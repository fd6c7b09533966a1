[package]
name = "scoreboard_sync"
version = "0.1.0"
edition = "2021"
publish = false

[dependencies]
uuid = { version = "*", features = ["v4"] }
axum = { version = "*", features = ["ws"] }
tokio = { version = "*", features = ["full"] }
tower-http = { version = "*", features = ["fs"] }
futures = "*"
serde = { version = "*", features = ["derive"] }
serde_json = "*"
chrono = "*"
parking_lot = "*"
