[package]
name = "saddle_stitcher"
version = "0.1.0"
edition = "2021"
publish = false

[dependencies]
percent-encoding = "=2.3.2"
mime_guess = "=2.0.5"
directories = "=6.0.0"
axum = { version = "=0.8.9", features = ["multipart"] }
tokio = { version = "=1.54.1", features = ["full"] }
tower-http = { version = "=0.6.11", features = ["compression-full", "trace"] }
sqlx = { version = "=0.8.6", default-features = false, features = ["sqlite", "runtime-tokio", "migrate"] }
lopdf = "=0.46.0"
serde = { version = "=1.0.229", features = ["derive"] }
toml = "=1.1.8"
thiserror = "=2.0.21"
tracing = "=0.1.44"
tracing-appender = "=0.2.5"
tracing-subscriber = { version = "=0.3.23", features = ["env-filter"] }
utoipa = "=5.5.0"
utoipa-axum = "=0.2.0"
rust-embed = { version = "=8.13.0", features = ["interpolate-folder-path"] }
auto-launch = "=0.6.0"
open = "=5.4.5"
