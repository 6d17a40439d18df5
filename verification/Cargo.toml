[package]
name = "scroll_dump"
version = "0.1.0"
edition = "2021"
publish = false

[dependencies]
serde_json = "=1.0.151"
flate2 = "=1.1.10"
reqwest = { version = "*", default-features = false, features = ["rustls-tls"] }
rust-s3 = "=0.38.0"
tokio = { version = "*", features = ["macros", "rt-multi-thread"] }
futures = "*"
