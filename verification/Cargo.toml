[package]
name = "photobooth"
version = "0.1.0"
edition = "2021"
publish = false

[dependencies]
async_zip = { version = "=0.0.19", features = ["deflate"] }
image = { version = "=0.25.10", default-features = false, features = ["jpeg"] }
oklab = "=1.1.2"
base64-url = "=3.0.4"
pollster = "=1.0.1"
chrono = "=0.4.45"

[dev-dependencies]
futures-lite = "=2.6.1"
