[package]
name = "vaultfetch"
version = "0.1.0"
edition = "2021"
publish = false

[dependencies]
anyhow = "=1.0.104"
crc32fast = "*"
indicatif = "=0.18.6"
reqwest = { version = "=0.13.5", features = ["blocking"] }
scraper = "=0.27.0"
sevenz-rust = "=0.6.1"
zip = "=8.6.0"
