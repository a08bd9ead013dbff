[package]
name = "s3_nix_channel"
version = "0.1.0"
edition = "2021"
publish = false

[dependencies]
anyhow = "*"
arc-swap = "*"
aws-config = "*"
aws-sdk-s3 = "*"
axum = "*"
base64 = "*"
clap = { version = "*", features = ["derive"] }
jsonwebtoken = "*"
sd-notify = "*"
serde = { version = "*", features = ["derive"] }
serde_json = "*"
tokio = { version = "*", features = ["full"] }
tower-http = { version = "*", features = ["trace"] }
tracing = "*"
tracing-subscriber = { version = "*", features = ["env-filter"] }
