[package]
name = "ledger_ls"
version = "0.1.0"
edition = "2021"
publish = false

[dependencies]
tokio = { version = "1.53.2", features = ["io-std", "rt-multi-thread", "macros"] }
tower-lsp = "0.20.0"
tracing = "0.1.44"
tracing-appender = "0.2.5"
tracing-subscriber = "0.3.23"
