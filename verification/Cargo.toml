[package]
name = "axiom_core"
version = "0.1.0"
edition = "2021"
publish = false

[dependencies]
rhai = "=1.27.0"
serde = { version = "=1.0.229", features = ["derive"] }
serde_json = "=1.0.154"
axum = "=0.8.9"
tokio = { version = "=1.54.1", features = ["rt-multi-thread", "macros", "net", "sync", "time"] }
image = { version = "0.25", default-features = false, features = ["png"] }
