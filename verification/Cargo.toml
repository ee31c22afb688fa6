[package]
name = "jwt_forward_auth"
version = "0.1.0"
edition = "2021"
publish = false

[dependencies]
aliri = "0.6"
aliri_clock = "0.1"
arc-swap = "1"
axum = "0.7"
clap = { version = "4", features = ["derive", "env"] }
dashmap = "6"
futures-util = "0.3"
http = "1"
notify = "6"
reqwest = { version = "0.12", default-features = false, features = ["json"] }
serde = { version = "1", features = ["derive"] }
serde_json = "1"
serde_yaml = "0.9"
this-state = "*"
tokio = { version = "1", features = ["rt-multi-thread", "net", "sync", "time", "macros"] }
tower-http = { version = "0.5", features = ["trace", "normalize-path"] }
tracing = "0.1"
tracing-subscriber = { version = "0.3", features = ["env-filter"] }
