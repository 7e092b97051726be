[package]
name = "ai_chatbox"
version = "0.1.0"
edition = "2021"
publish = false

[dependencies]
anyhow = "1"
esp-idf-svc = "*"
heapless = "0.8"
hound = "3"
log = "0.4"
serde = { version = "1", features = ["derive"] }
serde_json = "1"
