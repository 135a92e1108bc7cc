[package]
name = "simple_update_checker"
version = "0.1.0"
edition = "2021"
publish = false

[dependencies]
anyhow = "1"
clap = { version = "4", features = ["derive", "env"] }
directories = "5"
dotenvy = "0.15"
reqwest = { version = "0.12", default-features = false, features = ["rustls-tls", "json"] }
serde = { version = "1", features = ["derive"] }
serde_json = "1"
sqlx = { version = "0.8", default-features = false, features = ["runtime-tokio", "sqlite", "chrono"] }
tabled = "0.17"
tokio = { version = "1", features = ["rt-multi-thread", "macros", "signal", "time"] }
toml = "0.8"
tracing = "0.1"
tracing-subscriber = "0.3"
