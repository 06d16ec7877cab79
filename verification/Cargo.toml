[package]
name = "todos"
version = "0.1.0"
edition = "2021"
publish = false

[dependencies]
anyhow = "1"
askama = "=0.16.1"
axum = "=0.8.9"
bytes = "1"
http = "1"
reqwest = { version = "=0.13.5", default-features = false, features = ["form", "json", "multipart"] }
serde = { version = "1", features = ["derive"] }
tokio = { version = "1", features = ["macros", "rt-multi-thread", "net"] }
tower-http = { version = "=0.7.1", features = ["fs"] }
tracing = "0.1"
tracing-subscriber = "=0.3.23"
uuid = { version = "=1.27.0", features = ["v4"] }
