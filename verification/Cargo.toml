[package]
name = "chatrepo"
version = "0.1.0"
edition = "2021"
publish = false

[dependencies]
anyhow = "1"
chrono = { version = "0.4", default-features = false, features = ["clock", "std"] }
crossterm = "0.28"
git2 = { version = "0.19", default-features = false }
pulldown-cmark = { version = "0.8", default-features = false }
ratatui = "0.29"
reqwest = { version = "0.12", default-features = false, features = ["json", "rustls-tls"] }
serde = { version = "1", features = ["derive"] }
syntect = { version = "5", default-features = false, features = ["default-fancy"] }
tokio = { version = "1", features = ["rt-multi-thread", "macros", "sync"] }
