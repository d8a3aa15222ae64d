[package]
name = "s3z"
version = "0.1.0"
edition = "2021"
publish = false

[dependencies]
percent-encoding = "2"
http = "1"
aws-sigv4 = { version = "1", features = ["sign-http", "http1"] }
aws-credential-types = "1"
bytes = "1"
reqwest = { version = "0.12", default-features = false, features = ["stream"] }
tokio = { version = "1", features = ["rt-multi-thread", "macros", "fs", "time", "sync", "io-util"] }
futures-util = "0.3"
quick-xml = { version = "0.37", features = ["serialize"] }
serde = { version = "1", features = ["derive"] }
walkdir = "2"
tempfile = "3"
thiserror = "2"
clap = { version = "4", features = ["derive", "env"] }
indicatif = "0.17"
anyhow = "1"
