[package]
name = "site_content"
version = "0.1.0"
edition = "2021"
publish = false

[dependencies]
markdown = "*"
mime_guess = "2"
toml = "*"
axum = { version = "0.8", features = ["macros"] }
axum-template = { version = "*", features = ["minijinja", "minijinja-autoreload"] }
hyper = "1"
minijinja = { version = "2", features = ["loader"] }
minijinja-autoreload = "2"
serde = { version = "1", features = ["derive"] }
tokio = { version = "1", features = ["full"] }
tokio-util = { version = "0.7", features = ["io"] }
tower-http = { version = "0.6", features = ["trace"] }
tracing = "0.1"
tracing-subscriber = "0.3"
