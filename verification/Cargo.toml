[package]
name = "opencode_shell"
version = "0.1.0"
edition = "2021"
publish = false

[dependencies]
url = "2"
reqwest = { version = "0.12", default-features = false, features = ["stream"] }
tokio = { version = "1", default-features = false, features = ["rt", "sync", "time", "macros"] }
futures-util = "0.3"

[dev-dependencies]
serde_json = "1"
