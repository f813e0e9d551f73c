[package]
name = "pessoas"
version = "0.1.0"
edition = "2021"
publish = false

[dependencies]
deadqueue = "*"
sql-builder = "*"
uuid = { version = "*", features = ["v4"] }
actix-web = { version = "*", default-features = false, features = ["macros"] }
tokio = { version = "*", features = ["macros", "rt-multi-thread", "time", "sync"] }
deadpool-postgres = "*"
tokio-postgres = "*"
deadpool-redis = "*"
serde = { version = "*", features = ["derive"] }
serde_json = "*"
futures = "*"
reqwest = { version = "*", default-features = false }

[dev-dependencies]
