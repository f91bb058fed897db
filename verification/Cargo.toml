[package]
name = "iii_core"
version = "0.1.0"
edition = "2021"
publish = false

[dependencies]
uuid = { version = "=1.29.0", features = ["v4"] }
serde = { version = "=1.0.229", features = ["derive"] }
serde_json = "=1.0.154"
thiserror = "=2.0.21"
opentelemetry = "=0.33.1"
opentelemetry_sdk = "=0.33.1"
jsonschema = { version = "=0.60.2", default-features = false, features = ["idna"] }
serde_yaml = "=0.9.34"
