[package]
name = "lock_probe"
version = "0.1.0"
edition = "2021"
publish = false

[dependencies]
axum = "0.7"
clap = { version = "4", features = ["derive"] }
color-eyre = "0.6"
dialoguer = "0.11"
pico-args = "0.5"
serde = { version = "1", features = ["derive"] }
serde_yaml = "0.9"
tera = { version = "1", default-features = false }
tokio = { version = "1", features = ["macros", "rt-multi-thread", "net", "sync"] }
tokio-postgres = "0.7"
tracing = "0.1"
tracing-subscriber = { version = "0.3", features = ["env-filter"] }
ureq = { version = "2", default-features = false, features = ["json"] }
