[package]
name = "personal_site"
version = "0.1.0"
edition = "2021"
publish = false

[dependencies]
markdown = "1"
serde_yaml = "0.9"
serde = { version = "1", features = ["derive"] }
anyhow = "1"
ron = "0.8"
axum = "0.6"
tower = { version = "0.4", features = ["util"] }
tower-http = { version = "0.4", features = ["compression-full", "fs", "trace"] }
futures-util = "0.3"
tokio = { version = "1", features = ["macros", "rt-multi-thread"] }
tracing = "0.1"
tracing-subscriber = { version = "0.3", features = ["env-filter"] }
