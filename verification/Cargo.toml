[package]
name = "ironworks"
version = "0.1.0"
edition = "2021"
publish = false

[dependencies]
anyhow = "=1.0.104"
axum = "=0.6.20"
axum-macros = "=0.3.8"
bevy = { version = "0.7", default-features = false, features = ["bevy_winit", "render", "x11"] }
bevy_egui = { version = "0.14", default-features = false }
git2 = { version = "=0.18.3", default-features = false }
glob = "=0.3.4"
iyes_loopless = "0.5"
tantivy = "=0.19.2"
thiserror = "=1.0.69"
tokio = { version = "=1.54.1", features = ["rt", "sync"] }
tower-http = { version = "=0.4.4", features = ["trace"] }
tracing = "=0.1.44"
