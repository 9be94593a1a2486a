[package]
name = "meeting_assistant"
version = "0.1.0"
edition = "2021"
publish = false

[dependencies]
sha2 = "0.10"
unicode-normalization = "0.1"
url = "2"
uuid = { version = "1", features = ["v4", "serde"] }
serde = { version = "1", features = ["derive"] }
serde_json = "1"
serde_json_canonicalizer = "*"
anyhow = "1"
thiserror = "*"
