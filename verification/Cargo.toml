[package]
name = "nuget_client"
version = "0.1.0"
edition = "2021"
publish = false

[dependencies]
url = "2"
reqwest = { version = "0.12", default-features = false, features = ["gzip", "rustls-tls"] }
serde = { version = "1", features = ["derive"] }
serde_json = "1"
thiserror = "1"
futures = "0.3"
tokio = { version = "1", features = ["macros", "rt-multi-thread"] }
