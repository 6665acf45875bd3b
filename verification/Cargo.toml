[package]
name = "feedy"
version = "0.1.0"
edition = "2021"
publish = false

[dependencies]
anyhow = "=1.0.104"
chrono = "=0.4.45"
clap = { version = "=4.6.7", features = ["derive"] }
crossterm = "=0.29.0"
dirs = "=7.0.0"
feed-rs = "=2.4.0"
html2text = "=0.17.4"
open = "=5.4.5"
quick-xml = { version = "=0.42.0", features = ["serialize"] }
ratatui = "=0.30.2"
reqwest = { version = "=0.12.28", default-features = false, features = ["blocking", "rustls-tls"] }
rusqlite = { version = "=0.41.1", features = ["bundled"] }
serde = { version = "=1.0.229", features = ["derive"] }
url = "=2.5.8"
