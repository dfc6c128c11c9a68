[package]
name = "ip_story"
version = "0.1.0"
edition = "2021"
publish = false

[dependencies]
anyhow = "1"
chrono = { version = "0.4", features = ["serde"] }
redis = "*"
rocket = { version = "0.5", features = ["json", "uuid"] }
serde = { version = "1", features = ["derive"] }
serde_json = "1"
thiserror = "*"
tokio = { version = "1", features = ["macros", "rt-multi-thread", "sync"] }
url = { version = "2", features = ["serde"] }
utoipa = { version = "*", features = ["chrono", "uuid", "url"] }
uuid = { version = "1", features = ["v4", "serde"] }
