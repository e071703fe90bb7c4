[package]
name = "rss_reader"
version = "0.1.0"
edition = "2021"
publish = false

[dependencies]
anyhow = "1"
arboard = { version = "3", default-features = false }
atom_syndication = "0.12"
chrono = "0.4"
clap = { version = "4", features = ["derive"] }
crossterm = "0.28"
html2text = "0.13"
open = "5"
quick-xml = "0.37"
ratatui = "0.29"
rayon = "1"
readability = { version = "0.3", default-features = false }
reqwest = { version = "0.12", default-features = false, features = ["blocking", "rustls-tls"] }
rss = "2"
serde = { version = "1", features = ["derive"] }
serde_json = "1"
toml = "0.8"
tracing = "0.1"
tracing-subscriber = { version = "0.3", features = ["env-filter"] }

[dev-dependencies]
tempfile = "3"
