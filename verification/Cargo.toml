[package]
name = "shard-elect"
version = "0.1.0"
edition = "2021"
publish = false

[dependencies]
async-trait = "0.1"
aws-config = { version = "=1.13.0", features = ["behavior-version-latest"] }
aws-sdk-route53 = "=1.132.0"
aws-smithy-runtime-api = { version = "=1.19.2", features = ["client"] }
aws-smithy-types = "=1.9.1"
thiserror = "2"
tokio = { version = "1", features = ["macros", "rt", "rt-multi-thread", "signal", "sync", "time"] }
tracing = "0.1"
tracing-subscriber = { version = "0.3", features = ["env-filter"] }
uuid = { version = "=1.29.0", features = ["v4"] }
