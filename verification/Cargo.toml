[package]
name = "conduit_core"
version = "0.1.0"
edition = "2021"
publish = false

[dependencies]
argon2 = { version = "=0.5.3", features = ["std"] }
axum = "=0.7.9"
chrono = "=0.4.45"
http = "=1.5.0"
jsonwebtoken = "=9.3.1"
leptos = { version = "=0.6.15", features = ["ssr"] }
leptos_axum = "=0.6.15"
leptos_meta = { version = "=0.6.15", features = ["ssr"] }
leptos_router = { version = "=0.6.15", features = ["ssr"] }
serde = { version = "=1.0.229", features = ["derive"] }
serde_json = "=1.0.154"
sqlx = { version = "=0.7.4", default-features = false, features = ["runtime-tokio", "sqlite", "macros", "migrate"] }
tokio = { version = "=1.54.1", features = ["rt-multi-thread", "macros", "net"] }
tower = { version = "=0.4.13", features = ["util"] }
tower-http = { version = "=0.5.2", features = ["fs", "compression-gzip", "trace"] }
tracing = "=0.1.44"
tracing-subscriber = { version = "=0.3.23", features = ["env-filter"] }
