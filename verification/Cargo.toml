[package]
name = "mysoundboard"
version = "0.1.0"
edition = "2021"
publish = false

[dependencies]
slotmap = { version = "=1.1.1", features = ["serde"] }
serde = { version = "=1.0.229", features = ["derive"] }
serde_json = "=1.0.154"
tokio = { version = "=1.54.1", features = ["full"] }
anyhow = "=1.0.104"
tracing = "=0.1.44"
tracing-subscriber = "=0.3.23"
poise = "=0.6.2"
leptos = { version = "=0.8.23", features = ["ssr"] }
leptos_meta = { version = "=0.8.7", features = ["ssr"] }
leptos_router = { version = "=0.8.17", features = ["ssr"] }
leptos_axum = "=0.8.10"
axum = "=0.8.9"
local-ip-address = "=0.6.13"
qrcode = { version = "=0.14.1", default-features = false }
