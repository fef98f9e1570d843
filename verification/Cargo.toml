[package]
name = "minfer"
version = "0.1.0"
edition = "2021"
publish = false

[dependencies]
half = "2"
serde_json = "1"
rand = "0.8"
tokio = { version = "1", default-features = false, features = ["sync"] }
