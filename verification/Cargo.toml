[package]
name = "cfddns"
version = "0.1.0"
edition = "2021"
publish = false

[dependencies]
anyhow = "=1.0.104"
clap = { version = "=3.2.25", features = ["derive"] }
cloudflare = "=0.9.1"
lettre = "=0.10.4"
reqwest = "=0.11.27"
serde = { version = "=1.0.229", features = ["derive"] }
serde_yaml = "=0.8.26"
tokio = { version = "=1.54.1", features = ["full"] }

[dev-dependencies]
regex = "1"
