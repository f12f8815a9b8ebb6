[package]
name = "rtc_gateway"
version = "0.1.0"
edition = "2021"
publish = false

[dependencies]
serde = { version = "=1.0.229", features = ["derive"] }
serde_json = "=1.0.151"
tokio = { version = "=1.53.2", features = ["full"] }
warp = { version = "=0.4.3", features = ["server", "websocket"] }
futures-util = "=0.3.34"
openssl = "=0.10.81"
tokio-openssl = "=0.6.5"
webrtc-ice = "=0.17.2"
webrtc-util = "=0.17.2"
srtp = "=0.7.0"
dotenv = "=0.15.0"
envy = "=0.4.2"
