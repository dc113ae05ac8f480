[package]
name = "kmgr"
version = "0.1.0"
edition = "2021"
publish = false

[dependencies]
anyhow = "1"
async-trait = "0.1"
clap = { version = "4", features = ["derive"] }
colored = "2"
futures = "0.3"
hex = "0.4"
indicatif = "0.17"
reqwest = { version = "0.12", default-features = false, features = ["json", "rustls-tls"] }
rustyline = "*"
scraper = "*"
serde = { version = "1", features = ["derive"] }
sha1 = "0.10"
sha2 = "0.10"
strsim = "0.11"
tokio = { version = "1", features = ["full"] }
toml = "0.8"
