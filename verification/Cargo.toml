[package]
name = "tiandi"
version = "0.1.0"
edition = "2021"
publish = false

[dependencies]
uuid = { version = "=1.29.0", features = ["v4"] }
chrono = { version = "=0.4.45", default-features = false, features = ["clock", "std"] }
image = { version = "=0.25.10", default-features = false, features = ["png", "jpeg", "webp", "bmp", "gif", "tiff"] }
serde = { version = "=1.0.229", features = ["derive"] }
serde_json = "=1.0.154"
toml = "=0.8.23"
thiserror = "=2.0.21"
rusqlite = { version = "=0.32.1", features = ["bundled"] }
walkdir = "=2.5.0"
rayon = "=1.12.0"
kamadak-exif = "=0.5.5"
regex = "=1.13.1"
tokio = { version = "=1.54.1", features = ["full"] }
tokio-stream = { version = "=0.1.19", features = ["sync"] }
futures = "=0.3.34"
axum = "=0.8.9"
tower-http = { version = "=0.6.11", features = ["cors", "fs"] }
tracing = "=0.1.44"
tracing-subscriber = "=0.3.23"
clap = { version = "=4.6.7", features = ["derive"] }
webbrowser = "*"
sysinfo = "*"

[dev-dependencies]
tempfile = "=3.27.0"
