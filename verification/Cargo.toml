[package]
name = "zterm_llm"
version = "0.1.0"
edition = "2021"
publish = false

[dependencies]
anyhow = "1"
async-channel = "2"
bytes = "1"
futures = "0.3"
os_info = "3"
prost-types = "0.13"
reqwest = { version = "0.12", default-features = false, features = ["json", "stream"] }
schemars = "0.8"
serde = { version = "1", features = ["derive"] }
serde_json = "1"
tokio = { version = "1", features = ["fs", "process", "time", "rt", "macros"] }
url = "2"
uuid = { version = "1", features = ["v4"] }
