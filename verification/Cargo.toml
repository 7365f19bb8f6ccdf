[package]
name = "ngram_fetch"
version = "0.1.0"
edition = "2021"
publish = false

[dependencies]
chrono = "0.4"
sha2 = "0.10"
zstd = "0.13"
serde = { version = "1", features = ["derive"] }
serde_json = "1"
reqwest = { version = "0.12", default-features = false }
tokio = { version = "1", features = ["rt-multi-thread", "sync"] }
futures = "0.3"
ureq = "2"
