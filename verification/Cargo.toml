[package]
name = "xpedia"
version = "0.1.0"
edition = "2021"
publish = false

[dependencies]
html2text = "*"
crossterm = "0.25"
tui = "0.19"
tokio = { version = "1", features = ["rt-multi-thread"] }
reqwest = { version = "0.11", default-features = false, features = ["json", "rustls-tls"] }
serde = { version = "1", features = ["derive"] }
serde_json = "1"
