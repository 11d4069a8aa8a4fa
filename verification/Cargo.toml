[package]
name = "shirase"
version = "0.1.0"
edition = "2021"
publish = false

[dependencies]
awase = "*"
chrono = { version = "0.4", features = ["serde"] }
clap = { version = "4", features = ["derive"] }
dirs = "*"
kaname = "*"
rmcp = "*"
schemars = "*"
serde = { version = "1", features = ["derive"] }
serde_json = "1"
shikumi = "*"
soushi = "*"
thiserror = "*"
tokio = { version = "1", features = ["full"] }
tracing = "0.1"
tracing-subscriber = { version = "0.3", features = ["env-filter"] }
tsunagu = "*"
tsuuchi = "*"
uuid = { version = "1", features = ["v4", "serde"] }
