[package]
name = "apato"
version = "0.1.0"
edition = "2021"
publish = false

[dependencies]
anyhow = "=1.0.104"
async-channel = "=2.5.0"
chrono = "=0.4.45"
dotenvy = "=0.15.7"
futures = "=0.3.34"
log = "=0.4.34"
nalgebra = "=0.35.0"
rand = "=0.10.3"
reqwest = { version = "=0.13.5", default-features = false, features = ["json", "query"] }
serde = { version = "=1.0.229", features = ["derive"] }
serde_json = "=1.0.151"
tokio = { version = "=1.53.2", features = ["rt-multi-thread", "macros", "time", "sync", "signal"] }
toml = "=1.1.6"
