[package]
name = "chrome_debug_mcp"
version = "0.1.0"
edition = "2021"
publish = false

[dependencies]
anyhow = "1"
async-trait = "*"
cdp-browser-lite = "*"
cdp-lite = "*"
chrono = "*"
rust-mcp-sdk = "*"
serde = { version = "1", features = ["derive"] }
serde_json = "1"
tempfile = "3"
tokio = { version = "1", features = ["full"] }
tokio-stream = "*"
url = "2"
