[package]
name = "mangonel"
version = "0.1.0"
edition = "2021"
publish = false

[dependencies]
rand = "0.9"
uuid = { version = "1", features = ["v4"] }
libc = "0.2"
serde = { version = "1", features = ["derive"] }
serde_json = "1"
toml = "0.8"
tokio = { version = "1", features = ["full"] }
axum = "0.8"
tower-http = { version = "0.6", features = ["cors"] }
reqwest = { version = "0.12", default-features = false, features = ["json"] }
lettre = "0.11"
core_affinity = "0.8"
ctrlc = "3"
pnet = "*"
default-net = "*"
tracing = "0.1"
tracing-subscriber = { version = "0.3", features = ["env-filter"] }
