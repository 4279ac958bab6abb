[package]
name = "repeatapad"
version = "0.1.0"
edition = "2021"
publish = false

[dependencies]
ble-peripheral-rust = "*"
gamepads = "*"
tokio = { version = "*", features = ["macros", "rt-multi-thread", "sync"] }
uuid = "*"
