[package]
name = "sensor_bridge"
version = "0.1.0"
edition = "2021"
publish = false

[dependencies]
uuid = { version = "*", features = ["v4"] }
local-ip-address = "*"
tokio = { version = "*", features = ["rt-multi-thread", "net", "macros", "io-util"] }
tokio-tungstenite = "*"
futures-util = "*"
