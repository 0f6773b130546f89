[package]
name = "snowflake_id"
version = "0.1.0"
edition = "2021"
publish = false

[dependencies]
chrono = { version = "0.4", default-features = false, features = ["clock"] }
serde = { version = "1", default-features = false, features = ["std"] }
tokio = { version = "1", default-features = false, features = ["sync", "time"] }

[dev-dependencies]
serde_json = "1"
