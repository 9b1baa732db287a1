[package]
name = "oxidesip"
version = "0.1.2"
edition = "2021"
publish = false

[dependencies]
base64 = "=0.22.1"
dirs = "=7.0.0"
iced = { version = "=0.14.0", default-features = false, features = ["tiny-skia", "tokio", "x11"] }
if-addrs = "=0.15.0"
libc = "=0.2.191"
pipewire = "=0.10.1"
rand = "=0.9.5"
rfd = { version = "=0.15.4", default-features = false, features = ["gtk3"] }
ringbuf = "=0.4.8"
rsipstack = { version = "=0.7.14", default-features = false, features = ["platform-tokio", "rustls", "srv_lookup"] }
sdp-rs = "=0.2.1"
serde = { version = "=1.0.229", features = ["derive"] }
serde_json = "=1.0.154"
tokio = { version = "=1.54.1", features = ["full"] }
tokio-util = "=0.7.20"
toml = "=1.1.8"
tracing = "=0.1.44"
tracing-subscriber = { version = "=0.3.23", default-features = false, features = ["fmt"] }
