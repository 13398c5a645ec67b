[package]
name = "pow_server"
version = "0.1.0"
edition = "2021"
publish = false

[dependencies]
sha2 = "*"
tokio = { version = "*", features = ["full"] }
tokio-tungstenite = "*"
futures-util = "*"
serde = { version = "*", features = ["derive"] }
serde_json = "*"
toml = "*"
rayon = "*"
