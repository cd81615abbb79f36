[package]
name = "ep_rs"
version = "0.1.0"
edition = "2021"
publish = false

[dependencies]
chrono = { version = "0.4", default-features = false }
serde_json = "1"
thiserror = "1"
