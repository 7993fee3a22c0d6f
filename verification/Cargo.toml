[package]
name = "symbolab_rs"
version = "0.1.0"
edition = "2021"
publish = false

[dependencies]
anyhow = "1"
axum = "0.5"
base64 = "0.13"
pathfinder_geometry = "0.5"
pathfinder_renderer = "0.5"
reqwest = { version = "0.11", features = ["json"] }
resvg = "0.23"
serde = { version = "1", features = ["derive"] }
serde_json = "1"
tiny-skia = "0.6"
tokio = { version = "1", features = ["full"] }
tower-http = { version = "0.3", features = ["cors", "compression-gzip", "trace"] }
tracing = "0.1"
tracing-subscriber = { version = "0.3", features = ["env-filter"] }
usvg = "0.23"
webp = { version = "0.2", default-features = false }
