[package]
name = "json_log_format"
version = "0.1.0"
edition = "2021"
publish = false

[dependencies]
serde_json = "*"
chrono = "*"
gethostname = "*"
tracing = "*"
tracing-core = "*"
tracing-subscriber = "*"
