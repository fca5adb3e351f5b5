[package]
name = "eth_volatility"
version = "0.1.0"
edition = "2021"
publish = false

[dependencies]
chrono = "0.4"
serde = { version = "1", features = ["derive"] }
serde_json = "1"
tungstenite = "*"
url = "*"
log = "0.4"
env_logger = "*"
dotenv = "*"
