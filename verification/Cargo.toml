[package]
name = "mail_triage"
version = "0.1.0"
edition = "2021"
publish = false

[dependencies]
mailparse = "*"
regex = "*"
anyhow = "*"
async-imap = "*"
async-native-tls = "*"
async-std = "*"
futures = "*"
tokio = { version = "*", features = ["macros", "rt-multi-thread"] }
