[package]
name = "mdex_dl"
version = "0.1.0"
edition = "2021"
publish = false

[dependencies]
serde_json = "*"
serde_urlencoded = "*"
sanitise-file-name = "*"
isolang = "*"
serde = { version = "*", features = ["derive"] }
reqwest = { version = "*", default-features = false }
tokio = { version = "*", features = ["rt-multi-thread", "macros", "time", "fs", "sync"] }
futures = "*"
bytes = "*"
chrono = "*"
uuid = "*"
log = "*"
simplelog = "*"
miette = "*"
thiserror = "*"
toml = "*"
indicatif = "*"
console = "*"
dialoguer = "*"
