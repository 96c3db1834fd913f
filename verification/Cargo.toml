[package]
name = "speech_to_text"
version = "0.1.0"
edition = "2021"
publish = false

[dependencies]
anyhow = "=1.0.104"
axum = { version = "=0.8.9", features = ["multipart"] }
candle-core = { version = "=0.11.1", default-features = false }
candle-nn = { version = "=0.11.1", default-features = false }
candle-transformers = { version = "=0.11.1", default-features = false }
dotenvy = "=0.15.7"
hf-hub = { version = "=0.5.0", default-features = false, features = ["ureq", "rustls-tls"] }
ollama-rs = { version = "=0.3.6", default-features = false, features = ["rustls"] }
qdrant-client = { version = "=1.20.0", default-features = false, features = ["serde"] }
rmcp = { version = "=2.2.0", features = ["server", "macros", "schemars", "transport-streamable-http-server"] }
rubato = "0.15"
serde = { version = "=1.0.229", features = ["derive"] }
serde_json = "=1.0.154"
symphonia = { version = "0.6", default-features = false, features = ["aac", "alac", "isomp4", "mp3", "pcm", "wav"] }
tokenizers = { version = "=0.22.2", default-features = false, features = ["fancy-regex"] }
tokio = { version = "=1.54.1", features = ["full"] }
tokio-util = { version = "=0.7.20", features = ["io", "rt"] }
tower-http = { version = "=0.6.11", features = ["cors"] }
tracing = "=0.1.44"
tracing-appender = "=0.2.5"
tracing-subscriber = "=0.3.23"
uuid = { version = "=1.29.0", features = ["v4", "v5"] }
whisper-rs = "=0.16.0"
