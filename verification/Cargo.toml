[package]
name = "ros2monitor"
version = "0.1.0"
edition = "2021"
publish = false

[dependencies]
hex = "*"
log = "*"
serde = { version = "*", features = ["derive"] }
serde_json = "*"
dns-lookup = "*"
ctrlc = "*"
simple_logger = "*"
flume = "*"
single_value_channel = "*"
tokio = { version = "*", features = ["full"] }
