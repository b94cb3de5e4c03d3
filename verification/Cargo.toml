[package]
name = "magic_cursor"
version = "0.1.0"
edition = "2021"
publish = false

[dependencies]
regex = "1"
serde = { version = "1", features = ["derive"] }
serde_json = "1"
dirs = "5"
base64 = "0.22"
uuid = { version = "1", features = ["v4"] }
chrono = "0.4"
once_cell = "1"
futures-util = "0.3"
tokio = { version = "1", features = ["time", "rt"] }
reqwest = { version = "0.12", default-features = false, features = ["json", "stream", "multipart"] }
