[package]
name = "rocketmq_broker"
version = "0.1.0"
edition = "2021"
publish = false

[dependencies]
cheetah-string = "=0.1.9"
rocketmq-common = "=0.2.0"
rocketmq-runtime = "=0.4.0"
tokio = { version = "=1.54.1", features = ["rt", "sync", "time"] }
tracing = "=0.1.44"
