[package]
name = "liver"
version = "0.1.0"
edition = "2021"
publish = false

[dependencies]
axum = { version = "0.8", default-features = false, features = ["http1", "json", "tokio", "ws"] }
core-foundation = "0.9"
core-graphics = "0.23"
eframe = { version = "0.31", default-features = false, features = ["default_fonts", "glow", "x11"] }
futures-util = "0.3"
objc = "0.2"
raw-window-handle = "0.6"
serde = { version = "1", features = ["derive"] }
serde_json = "1"
tokio = { version = "1", features = ["fs", "macros", "net", "rt-multi-thread", "sync", "time"] }
tokio-tungstenite = "0.29"
tower-http = { version = "0.6", features = ["cors", "trace"] }
tracing = "0.1"
tracing-subscriber = { version = "0.3", features = ["env-filter"] }
windows-sys = { version = "0.59", features = ["Win32_System_Console"] }
