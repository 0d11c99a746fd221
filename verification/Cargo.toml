[package]
name = "rig-openapi-tools"
version = "0.1.0"
edition = "2021"
publish = false

[dependencies]
anyhow = "=1.0.104"
indexmap = "=2.14.2"
openapiv3 = "=2.2.0"
reqwest = { version = "=0.13.5", default-features = false, features = ["json", "query", "rustls"] }
rig-core = { version = "=0.32.0", default-features = false }
serde_json = "=1.0.154"
serde_yaml = "=0.9.34"

[dev-dependencies]
tokio = { version = "1", features = ["rt", "net", "time"] }
wiremock = "0.6"
