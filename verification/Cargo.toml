[package]
name = "ledger_workflow"
version = "0.1.0"
edition = "2021"
publish = false

[dependencies]
rand = "*"
anyhow = "*"
dotenv = "*"
tokio = { version = "*", features = ["rt-multi-thread", "macros", "time", "fs"] }
tracing = "*"
tracing-subscriber = { version = "*", features = ["env-filter"] }
