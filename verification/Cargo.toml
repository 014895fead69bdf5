[package]
name = "feluda"
version = "0.1.0"
edition = "2021"
publish = false

[dependencies]
regex = "1"
serde = { version = "1", features = ["derive"] }
serde_json = "1"
serde_yaml = "0.9"
toml = "*"
clap = { version = "4", features = ["derive"] }
colored = "*"
reqwest = { version = "0.12", default-features = false, features = ["blocking", "json", "rustls-tls"] }
tokio = { version = "1", features = ["rt-multi-thread", "macros", "sync", "time"] }
rayon = "1"
chrono = "0.4"
figment = { version = "0.10", features = ["toml", "env"] }
cargo_metadata = "*"
ignore = "0.4"
scraper = "*"
thiserror = "*"
color-eyre = "0.6"
ratatui = "*"
libc = "0.2"

[dev-dependencies]
tempfile = "3"
