[package]
name = "selvedge"
version = "0.3.1"
edition = "2021"
publish = false

[dependencies]
anyhow = "1"
http = "1"
self_update = { version = "*", default-features = false, features = ["archive-tar", "archive-zip", "compression-flate2", "compression-zip-deflate", "reqwest", "rustls"] }
serde = { version = "1", features = ["derive"] }
serde_json = "1"
