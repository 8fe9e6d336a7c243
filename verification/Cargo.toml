[package]
name = "account_store"
version = "0.1.0"
edition = "2021"
publish = false

[dependencies]
clap = { version = "=4.6.7", features = ["derive"] }
miden-crypto = { version = "=0.8.4", features = ["serde"] }
miden-objects = { version = "=0.1.1", features = ["serde"] }
rusqlite = { version = "=0.30.0", features = ["bundled"] }
serde = "=1.0.229"
serde_json = "=1.0.154"
tokio = { version = "=1.54.1", features = ["macros", "rt-multi-thread"] }
