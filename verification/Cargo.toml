[package]
name = "node_api"
version = "0.1.0"
edition = "2021"
publish = false

[dependencies]
actix-cors = "0.6"
actix-server = "2"
actix-web = { version = "4", default-features = false }
anyhow = "1"
futures = "0.3"
log = "0.4"
proc-macro2 = "1"
protobuf-codegen = "3"
quote = "1"
serde = { version = "1", features = ["derive"] }
serde_json = "1"
serde_urlencoded = "0.7"
thiserror = "1"
time = { version = "0.3", features = ["formatting"] }
tokio = { version = "1", features = ["rt", "time"] }
walkdir = "2"
