[package]
name = "azeroth_dashboard"
version = "0.1.0"
edition = "2021"
publish = false

[dependencies]
axum = "*"
tokio = { version = "1", features = ["full"] }
tower-http = { version = "*", features = ["cors"] }
tracing = "*"
tracing-subscriber = "*"
serde = { version = "1", features = ["derive"] }
serde_json = "1"
sysinfo = "*"
rand = "0.8"
reqwest = { version = "*", default-features = false, features = ["json"] }
lettre = "*"
wasm-bindgen = "*"
wasm-bindgen-futures = "*"
web-sys = { version = "*", features = ["console", "Window", "Document", "Element", "Node"] }
gloo-timers = { version = "*", features = ["futures"] }
ferrox-front-core = "*"
ferrox-front-ui = "*"
