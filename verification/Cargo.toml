[package]
name = "ratarss"
version = "0.1.0"
edition = "2021"
publish = false

[dependencies]
arboard = "3"
chrono = "0.4"
clap = { version = "4", features = ["derive"] }
crossterm = "0.28"
directories = "5"
feed-rs = "2"
html-escape = "0.2"
open = "5"
quick-xml = "0.37"
ratatui = "0.29"
regex = "1"
reqwest = { version = "0.12", default-features = false, features = ["rustls-tls"] }
rusqlite = { version = "0.32", features = ["bundled"] }
serde = { version = "1", features = ["derive"] }
tokio = { version = "1", features = ["full"] }
toml = "0.8"
unicode-width = "0.2"
uuid = { version = "1", features = ["v4"] }
zstd = "0.13"
