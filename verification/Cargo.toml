[package]
name = "session_bridge"
version = "0.1.0"
edition = "2021"
publish = false

[dependencies]
time = "=0.3.55"
chrono = "=0.4.45"
napi = { version = "=2.16.17", features = ["napi4"] }
