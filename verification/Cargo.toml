[package]
name = "simx"
version = "0.1.0"
edition = "2021"
publish = false

[dependencies]
getrandom = "=0.4.3"
uuid = { version = "=1.27.0", features = ["v4", "serde"] }
serde = { version = "=1.0.229", features = ["derive"] }
serde_json = "=1.0.151"
thiserror = "=2.0.21"
