[package]
name = "aws-utils"
version = "0.2.0"
edition = "2021"
publish = false

[dependencies]
chrono = "=0.4.45"
dirs = "=6.0.0"
regex-syntax = "=0.8.11"
anyhow = "=1.0.104"
clap = { version = "=4.6.7", features = ["derive"] }
colored = "=3.1.1"
dialoguer = "=0.11.0"
dotenvy = "=0.15.7"
tokio = { version = "=1.54.1", features = ["full"] }
tracing = "=0.1.44"
tracing-subscriber = { version = "=0.3.23", features = ["env-filter"] }
serde = { version = "=1.0.229", features = ["derive"] }
toml = "=0.8.23"
reqwest = { version = "=0.12.28", default-features = false, features = ["json", "rustls-tls"] }
futures = "=0.3.34"
indicatif = "=0.17.11"
prettytable-rs = { version = "=0.10.0", default-features = false }
ratatui = "=0.29.0"
crossterm = "=0.28.1"
git2 = { version = "=0.20.4", default-features = false }
aws-config = { version = "=1.13.0", default-features = false, features = ["behavior-version-latest", "rt-tokio", "default-https-client"] }
aws-sdk-codepipeline = { version = "=1.131.0", default-features = false, features = ["rt-tokio", "default-https-client"] }
aws-sdk-s3 = { version = "=1.157.0", default-features = false, features = ["rt-tokio", "default-https-client"] }
