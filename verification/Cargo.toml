[package]
name = "namecheap_cli"
version = "0.1.0"
edition = "2021"
publish = false

[dependencies]
quick-xml = "0.37"
anyhow = "1"
clap = { version = "4", features = ["derive"] }
dirs = "5"
reqwest = { version = "0.12", default-features = false, features = ["json", "rustls-tls"] }
serde = { version = "1", features = ["derive"] }
serde_json = "1"
tokio = { version = "1", features = ["macros", "rt-multi-thread"] }
