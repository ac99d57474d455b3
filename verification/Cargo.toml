[package]
name = "git_msg"
version = "0.1.0"
edition = "2021"
publish = false

[dependencies]
anyhow = "1.0"
clap = { version = "4.4", features = ["derive", "env"] }
colored = "2.1"
dirs = "5.0"
glob = "0.3"
indicatif = "0.17"
inquire = "0.7"
regex = "1.10"
reqwest = { version = "0.11", default-features = false, features = ["json", "blocking", "rustls-tls"] }
serde = { version = "1.0", features = ["derive"] }
serde_json = "1.0"
tempfile = "3.10"
toml = "0.8"
unicode-width = "0.1"
