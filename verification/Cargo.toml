[package]
name = "takusu_agent"
version = "0.1.0"
edition = "2021"
publish = false

[dependencies]
jiff = "0.2"
serde = { version = "1", features = ["derive"] }
serde_json = "1"
uuid = { version = "1", features = ["v7"] }
tokio = { version = "1", default-features = false, features = ["sync"] }
thiserror = "2"

[dev-dependencies]
toml = "0.8"
