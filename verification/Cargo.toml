[package]
name = "keeper"
version = "0.1.0"
edition = "2021"
publish = false

[dependencies]
async-channel = "2"
chrono = { version = "0.4", features = ["serde"] }
dirs = "5"
futures-util = "0.3"
gtk4 = "0.9"
libadwaita = { version = "0.7", features = ["v1_2"] }
open = "5"
reqwest = { version = "0.12", features = ["stream"] }
serde = { version = "1", features = ["derive"] }
serde_json = "1"
tokio = { version = "1", features = ["full"] }
