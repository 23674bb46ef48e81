[package]
name = "nostr_relay"
version = "0.1.0"
edition = "2021"
publish = false

[dependencies]
hex = "0.4"
sha2 = "0.10"
uuid = { version = "1", features = ["v4"] }
governor = "*"
serde = { version = "1", features = ["derive"] }
serde_json = "1"
tokio = { version = "1", features = ["sync", "rt", "time", "macros"] }
async-trait = "0.1"
chrono = "0.4"
sqlx = { version = "0.6", default-features = false, features = ["postgres", "runtime-tokio-rustls", "chrono"] }
