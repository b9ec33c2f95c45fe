[package]
name = "heracles"
version = "0.1.0"
edition = "2021"
publish = false

[dependencies]
base64 = "0.21"
clap = { version = "4", features = ["derive", "env"] }
clap_complete = "4"
directories = "*"
exitcode = "1"
futures-util = "0.3"
once_cell = "1"
resolve-path = "*"
semver = "1"
serde = { version = "1", features = ["derive"] }
serde_yaml = "0.9"
snafu = "*"
tokio = { version = "1", features = ["rt-multi-thread"] }
tokio-graceful-shutdown = "*"
tracing = "0.1"
tracing-subscriber = { version = "0.3", features = ["env-filter"] }
