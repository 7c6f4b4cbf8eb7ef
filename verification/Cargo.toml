[package]
name = "modbus_bridge"
version = "0.1.0"
edition = "2021"
publish = false

[dependencies]
tokio = { version = "*", features = ["rt-multi-thread", "net", "macros", "time"] }
tokio-modbus = { version = "*", features = ["tcp-server"] }
