[package]
name = "marginfi"
version = "0.1.0"
edition = "2021"
publish = false

[dependencies]
fixed = "1"
anchor-lang = "*"
anyhow = "*"
clap = { version = "4", features = ["derive"] }
serde = { version = "1", features = ["derive"] }
serde_json = "1"
dirs = "*"
shellexpand = "*"
