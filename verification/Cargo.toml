[package]
name = "calcbot"
version = "0.1.0"
edition = "2021"
publish = false

[dependencies]
anyhow = "=1.0.104"
async-trait = "=0.1.92"
futures = "=0.3.34"
lazy_static = "=1.5.1"
reqwest = { version = "=0.11.27", features = ["json"] }
serde = { version = "=1.0.229", features = ["derive"] }
serde_json = "=1.0.154"
serenity = { version = "=0.11.7", default-features = false, features = ["builder", "client", "gateway", "model", "rustls_backend"] }
shuttle-runtime = "=0.44.0"
shuttle-secrets = "=0.42.0"
shuttle-serenity = { version = "=0.44.0", default-features = false, features = ["serenity-0-11-rustls_backend"] }
