[package]
name = "speq"
version = "0.1.0"
edition = "2021"
publish = false

[dependencies]
anyhow = "=1.0.104"
crossterm = "=0.29.0"
indexmap = "=2.14.2"
openapiv3 = "=2.2.0"
ratatui = "=0.30.2"
serde_json = "=1.0.154"
serde_yaml = "=0.9.34"
