[package]
name = "hass_light_sync"
version = "0.1.0"
edition = "2021"
publish = false

[dependencies]
captrs = "*"
console = "*"
hass-rs = "*"
serde = { version = "*", features = ["derive"] }
serde_json = "*"
tokio = { version = "*", features = ["full"] }
url = "*"
