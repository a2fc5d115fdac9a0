[package]
name = "arbitra"
version = "0.1.0"
edition = "2021"
publish = false

[dependencies]
actix-web = "=4.9.0"
actix-multipart = "=0.6.2"
csv = "=1.3.1"
elasticsearch = "=8.5.0-alpha.1"
env_logger = "=0.10.2"
fastrand = "=2.3.0"
futures = "=0.3.34"
ijson = "=0.1.7"
nanoid = "=0.4.0"
reqwest = "=0.11.27"
serde = { version = "=1.0.229", features = ["derive"] }
serde_json = "=1.0.151"
thiserror = "=1.0.69"
