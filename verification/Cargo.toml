[package]
name = "rengine"
version = "0.1.0"
edition = "2021"
publish = false

[dependencies]
tokio = { version = "=1.53.2", features = ["sync", "rt-multi-thread", "net", "io-util", "time", "macros", "signal"] }
serde = { version = "=1.0.229", features = ["derive"] }
serde_json = "=1.0.151"
toml = "=1.1.6"
rand = "=0.10.3"
chrono = "=0.4.45"
