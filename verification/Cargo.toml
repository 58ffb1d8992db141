[package]
name = "awsbck"
version = "0.3.4"
edition = "2021"
publish = false

[dependencies]
anyhow = "1"
aws-config = { version = "1", features = ["behavior-version-latest"] }
aws-sdk-s3 = "1"
aws-smithy-types = "1"
chrono = "0.4"
clap = { version = "4", features = ["derive", "env"] }
cron = "*"
dotenvy = "0.15"
env_logger = "*"
flate2 = "1"
log = "0.4"
tar = "0.4"
temp-dir = "*"
tokio = { version = "1", features = ["macros", "rt", "signal", "time"] }
uuid = { version = "1", features = ["v4"] }
