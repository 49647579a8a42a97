[package]
name = "bike_telemetry"
version = "0.1.0"
edition = "2021"
publish = false

[dependencies]
btleplug = "*"
futures = "0.3"
tokio = { version = "1", features = ["macros", "rt-multi-thread", "time"] }
uuid = "1"
