[package]
name = "wf_api_quick"
version = "0.1.0"
edition = "2021"
publish = false

[dependencies]
serde = { version = "1", features = ["derive"] }
serde_json = "1"
term_size = "*"
unicode-width = "*"
