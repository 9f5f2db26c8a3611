[package]
name = "chatbot"
version = "0.1.0"
edition = "2021"
publish = false

[dependencies]
serenity = "0.11"
tokio = { version = "1", features = ["macros", "rt-multi-thread"] }
reqwest = { version = "0.11", default-features = false, features = ["rustls-tls"] }
tungstenite = "0.18"
url = "2"
serde = { version = "1", features = ["derive"] }
serde_json = "1"
toml = "0.7"
