[package]
name = "msailor"
version = "0.1.0"
edition = "2021"
publish = false

[dependencies]
crossterm = "*"
ratatui = "*"
git2 = "*"
tokio = { version = "*", features = ["full"] }
reqwest = { version = "*", default-features = false }
kiro-editor = "*"
