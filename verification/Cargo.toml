[package]
name = "ledger_engine"
version = "0.1.0"
edition = "2021"
publish = false

[dependencies]
anyhow = "1"
clap = { version = "4", features = ["derive"] }
csv = "1"
csv-async = { version = "1", features = ["tokio"] }
rust_decimal = "1"
serde = { version = "1", features = ["derive"] }
strum_macros = "*"
tokio = { version = "1", features = ["fs", "macros", "rt-multi-thread"] }
tokio-stream = "0.1"
