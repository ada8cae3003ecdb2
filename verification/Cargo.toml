[package]
name = "ragllm"
version = "0.1.0"
edition = "2021"
publish = false

[dependencies]
serde_json = "=1.0.151"
serde = "=1.0.229"
serde_derive = "=1.0.229"
clap = { version = "=4.6.7", features = ["derive"] }
reqwest = { version = "=0.12.28", default-features = false, features = ["json", "stream"] }
qdrant-client = "=1.19.0"
tokio = { version = "=1.53.2", features = ["macros", "rt", "io-util", "io-std"] }
custom_logger = "=0.1.0"
futures = "=0.3.34"
futures-util = "=0.3.34"
ollama-rs = { version = "=0.3.6", features = ["stream"] }
hyper = { version = "=1.12.0", features = ["server", "http1"] }
http-body-util = "=0.1.5"
async-trait = "=0.1.92"
