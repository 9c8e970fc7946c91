[package]
name = "scriptorium"
version = "0.1.0"
edition = "2021"
publish = false

[dependencies]
anyhow = "=1.0.104"
async-stream = "=0.3.6"
aws-config = { version = "=1.13.0", default-features = false, features = ["behavior-version-latest"] }
aws-credential-types = "=1.3.1"
aws-sdk-s3 = { version = "=1.157.0", default-features = false, features = ["behavior-version-latest", "rt-tokio", "rustls"] }
bollard = "=0.19.4"
bytes = "=1.12.1"
clap = { version = "=4.6.7", features = ["derive"] }
flate2 = "=1.1.10"
futures = "=0.3.34"
hex = "=0.4.3"
path-clean = "=1.0.1"
prost = "=0.14.4"
reqwest = { version = "=0.12.28", default-features = false, features = ["rustls-tls", "stream"] }
serde = { version = "=1.0.229", features = ["derive"] }
serde_json = "=1.0.154"
sha2 = "=0.11.1"
tar = "=0.4.46"
thiserror = "=2.0.21"
tokio = { version = "=1.54.1", features = ["full"] }
toml = "=0.8.23"
tonic = "=0.14.9"
tonic-prost = "=0.14.9"
tracing = "=0.1.44"
tracing-subscriber = { version = "=0.3.23", features = ["env-filter"] }
