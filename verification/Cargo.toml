[package]
name = "wellbeing_gui"
version = "0.1.0"
edition = "2021"
publish = false

[dependencies]
chrono = { version = "0.4", default-features = false, features = ["std", "clock"] }
nix = { version = "0.29", default-features = false, features = ["user"] }
tokio = { version = "1", features = ["rt-multi-thread", "macros", "sync", "time"] }
zbus = "5"
futures = "0.3"
tracing = "0.1"
tracing-subscriber = { version = "0.3", features = ["env-filter"] }
anyhow = "1"
serde = { version = "1", features = ["derive"] }
serde_json = "1"
