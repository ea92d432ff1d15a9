[package]
name = "s3handler"
version = "0.1.0"
edition = "2021"
publish = false

[dependencies]
chrono = "=0.4.45"
colored = "=1.9.4"
log = "=0.4.35"
quick-xml = "=0.22.0"
regex = "=1.13.1"
reqwest = "=0.9.24"
serde = { version = "=1.0.229", features = ["derive"] }
serde_derive = "=1.0.229"
serde_json = "=1.0.154"
