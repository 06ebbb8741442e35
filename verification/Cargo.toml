[package]
name = "netpolicy"
version = "0.1.0"
edition = "2021"
publish = false

[dependencies]
anyhow = "*"
futures = "*"
rtnetlink = "*"
tempfile = "*"
tokio = { version = "*", features = ["macros", "rt-multi-thread"] }
