[package]
name = "ledger_migration"
version = "0.1.0"
edition = "2021"
publish = false

[dependencies]
candid = "=0.7.18"
clap = { version = "=3.2.25", features = ["derive"] }
garcon = "=0.2.3"
ic-agent = "0.11"
openssl = "=0.10.81"
rusqlite = "=0.28.0"
tokio = { version = "=1.54.1", features = ["macros", "rt"] }
