[package]
name = "clearmodel"
version = "0.1.0"
edition = "2021"
publish = false

[dependencies]
dashmap = "*"
sysinfo = "*"
home = "*"
sanitize-filename = "*"
clap = { version = "*", features = ["derive"] }
tokio = { version = "*", features = ["full"] }
rayon = "*"
walkdir = "*"
serde = { version = "*", features = ["derive"] }
serde_json = "*"
serde_yaml = "*"
toml = "*"
dotenvy = "*"
rpassword = "*"
secrecy = "*"
thiserror = "*"
tracing = "*"
tracing-subscriber = { version = "*", features = ["env-filter"] }
