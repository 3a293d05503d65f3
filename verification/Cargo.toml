[package]
name = "dcp_provider"
version = "0.2.8"
edition = "2021"
publish = false

[dependencies]
sha2 = "0.10"
hex = "0.4"
serde = { version = "1", features = ["derive"] }
serde_json = "1"
tokio = { version = "1", features = ["full"] }
reqwest = { version = "0.12", default-features = false, features = ["json", "rustls-tls"] }
dirs = "5"
chrono = "0.4"
hostname = "0.4"
num_cpus = "1"
open = "5"
futures-util = "0.3"
tokio-tungstenite = "0.24"
