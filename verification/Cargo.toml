[package]
name = "markdown2mrkdwn"
version = "0.1.0"
edition = "2021"
publish = false

[dependencies]
serde_json = "1"
markdown = "*"
anyhow = "1"
clap = { version = "4", features = ["derive"] }
