[package]
name = "asmith_bot"
version = "0.1.0"
edition = "2021"
publish = false

[dependencies]
anyhow = "=1.0.104"
chrono = { version = "=0.4.45", default-features = false, features = ["clock"] }
futures-util = "=0.3.34"
matrix-sdk = { version = "=0.16.1", default-features = false, features = ["e2e-encryption", "sqlite"] }
once_cell = "=1.21.4"
rand = "=0.10.3"
rand_distr = "=0.6.0"
tokio = { version = "=1.53.2", features = ["macros", "rt-multi-thread", "time", "fs", "sync"] }
tracing = "=0.1.44"
tracing-subscriber = "=0.3.23"
url = "=2.5.8"
