[package]
name = "mcp_arch"
version = "0.1.0"
edition = "2021"
publish = false

[dependencies]
serde_json = "1"
dotenvy = "0.15"
