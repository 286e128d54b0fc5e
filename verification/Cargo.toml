[package]
name = "wireless_taiko"
version = "0.1.0"
edition = "2021"
publish = false

[dependencies]
anyhow = "1"
bluer = { version = "0.17", features = ["bluetoothd", "l2cap", "rfcomm"] }
hidapi = "2"
tokio = { version = "1", features = ["full"] }
