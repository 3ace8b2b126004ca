[package]
name = "langchain_rust"
version = "0.1.0"
edition = "2021"
publish = false

[dependencies]
regex = "1"
serde = { version = "1", features = ["derive"] }
serde_json = "1"
thiserror = "1"
async-openai = { version = "0.28", features = ["byot"] }
async-trait = "0.1"
futures = "0.3"
tokio = { version = "1", features = ["sync", "macros", "rt"] }
tokio-stream = "0.1"
reqwest = { version = "0.12", default-features = false, features = ["json", "rustls-tls"] }
uuid = { version = "1", features = ["v4"] }
itertools = "0.13"
log = "0.4"
ollama-rs = { version = "0.2", default-features = false, features = ["stream"] }
