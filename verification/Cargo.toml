[package]
name = "electricity"
version = "0.1.0"
edition = "2021"
publish = false

[dependencies]
futures = "*"
influxdb2 = "*"
modbus = "*"
tokio = { version = "*", features = ["full"] }
tracing = "*"
tracing-subscriber = "*"
