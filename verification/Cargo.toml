[package]
name = "sensor_dashboard"
version = "0.1.0"
edition = "2021"
publish = false

[dependencies]
futures = "0.1"
termion = "1"
tokio-core = "0.1"
tui = "0.1"
