[package]
name = "cashu_service"
version = "0.1.0"
edition = "2021"
publish = false

[dependencies]
serde = { version = "=1.0.229", features = ["derive"] }
serde_json = "=1.0.154"
url = "=2.5.8"
thiserror = "=2.0.21"
hex = "=0.4.3"
rand = "=0.8.8"
cdk = { version = "=0.18.3", default-features = false, features = ["wallet"] }
cdk-sqlite = { version = "=0.18.3", default-features = false, features = ["wallet"] }
tokio = { version = "=1.54.1", features = ["sync"] }
anyhow = "=1.0.104"
uuid = "=1.29.0"

[dev-dependencies]
tempfile = "=3.27.0"
