[package]
name = "srw"
version = "0.1.0"
edition = "2021"
publish = false

[dependencies]
accessibility-sys = "=0.2.0"
anyhow = "1"
base64 = "=0.22.1"
core-foundation = "=0.10.1"
core-graphics = { version = "=0.24.0", features = ["highsierra"] }
libc = "0.2"
objc2 = "0.6"
objc2-app-kit = "0.3"
objc2-core-graphics = "0.3"
objc2-foundation = "0.3"
openh264 = "=0.9.9"
png = "=0.17.16"
screencapturekit = { version = "=11.1.2", features = ["macos_14_2"] }
serde = { version = "1", features = ["derive"] }
serde_json = "1"
softbuffer = { version = "0.4", default-features = false, features = ["x11", "x11-dlopen"] }
tiny_http = "0.12"
tokio = { version = "1", features = ["rt-multi-thread", "macros", "sync", "time"] }
tracing = "0.1"
tracing-subscriber = { version = "0.3", features = ["env-filter"] }
ureq = { version = "2", default-features = false }
webrtc = "=0.13.0"
winit = { version = "0.30", default-features = false, features = ["x11", "rwh_06"] }
