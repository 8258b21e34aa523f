[package]
name = "azure_storage_blob"
version = "0.1.0"
edition = "2021"
publish = false

[dependencies]
azure_core = { version = "=0.31.0", features = ["hmac_rust", "xml"] }
serde = { version = "=1.0.229", features = ["derive"] }
time = { version = "=0.3.55", features = ["formatting"] }
