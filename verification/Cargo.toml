[package]
name = "relay_viewer"
version = "0.1.0"
edition = "2021"
publish = false

[dependencies]
nostr-sdk = "*"
rusqlite = { version = "*", features = ["bundled"] }
rusqlite_migration = "*"
tokio = { version = "1", features = ["rt-multi-thread"] }
serde = { version = "1", features = ["derive"] }
thiserror = "*"
log = "0.4"
uniffi = "*"
