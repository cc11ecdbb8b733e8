[package]
name = "mail_classifier"
version = "0.1.0"
edition = "2021"
publish = false

[dependencies]
dotenvy = "0.15"
imap = "2"
native-tls = "0.2"
serde = { version = "1", features = ["derive"] }
serde_json = "1"
time = { version = "0.3", features = ["macros"] }
tracing = "0.1"
tracing-appender = "0.2"
tracing-subscriber = { version = "0.3", features = ["env-filter", "local-time"] }
