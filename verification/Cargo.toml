[package]
name = "websim"
version = "0.1.0"
edition = "2021"
publish = false

[dependencies]
rusqlite = { version = "*", features = ["bundled"] }
minijinja = "*"
axum = "*"
tokio = { version = "*", features = ["rt-multi-thread", "macros", "net", "sync"] }
reqwest = { version = "*", default-features = false, features = ["json"] }
clap = { version = "*", features = ["derive"] }
serde = { version = "*", features = ["derive"] }
config = { version = "*", default-features = false, features = ["yaml"] }
anyhow = "*"
tracing = "*"
tracing-subscriber = { version = "*", features = ["env-filter"] }
secrecy = "*"
