[package]
name = "newsletter"
version = "0.1.0"
edition = "2021"
publish = false

[dependencies]
unicode-segmentation = "=1.13.3"
uuid = { version = "=1.29.0", features = ["v4"] }
actix-web = "=4.18.1"
actix-web-flash-messages = { version = "=0.5.1", features = ["cookies"] }
anyhow = "=1.0.104"
thiserror = "=1.0.69"
serde = { version = "=1.0.229", features = ["derive"] }
sqlx = { version = "=0.8.6", default-features = false, features = ["runtime-tokio", "postgres"] }
tokio = { version = "=1.54.1", features = ["macros", "rt-multi-thread", "sync", "time"] }
tracing = "=0.1.44"
reqwest = { version = "=0.11.27", default-features = false }
