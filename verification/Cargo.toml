[package]
name = "playwright_api"
version = "0.1.0"
edition = "2021"
publish = false

[dependencies]
case = "*"
proc-macro2 = "1"
quote = "1"
serde = { version = "1", features = ["derive"] }
serde_json = "1"
