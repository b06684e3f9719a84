[package]
name = "husako"
version = "0.1.0"
edition = "2021"
publish = false

[dependencies]
serde = { version = "=1.0.229", features = ["derive"] }
serde_json = "=1.0.154"
toml = "=1.1.8"
toml_edit = "=0.25.17"
chrono = "=0.4.45"
semver = "=1.0.28"
clap = { version = "=4.6.7", features = ["derive"] }
regex-lite = "=0.1.9"
serde_yaml_ng = "=0.10.0"
tokio = { version = "=1.54.1", features = ["macros", "rt-multi-thread", "process", "time"] }
reqwest = { version = "=0.12.28", default-features = false, features = ["json", "rustls-tls"] }
console = "=0.15.11"
dialoguer = { version = "=0.11.0", features = ["fuzzy-select"] }
indicatif = "=0.17.11"
crossterm = "=0.28.1"
fuzzy-matcher = "=0.3.7"
thiserror = "=2.0.21"
tempfile = "=3.27.0"
