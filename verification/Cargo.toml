[package]
name = "package_manager"
version = "0.1.0"
edition = "2021"
publish = false

[dependencies]
semver = "=1.0.28"
serde = { version = "=1.0.229", features = ["derive"] }
serde_json = "=1.0.154"
oci-client = { version = "=0.18.0", default-features = false, features = ["rustls-tls-no-provider"] }
sea-orm = { version = "=1.1.20", default-features = false, features = ["macros", "sqlx-sqlite", "runtime-tokio"] }
anyhow = "=1.0.104"
ctrlc = "=3.5.2"
html = "=0.6.3"
tokio = { version = "=1.54.1", features = ["fs"] }
