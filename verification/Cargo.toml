[package]
name = "opncheck"
version = "0.1.0"
edition = "2021"
publish = false

[dependencies]
anyhow = "1"
clap = { version = "4", features = ["derive"] }
dialoguer = { version = "0.11", default-features = false }
jiff = { version = "0.2", features = ["serde"] }
quick-xml = { version = "0.37", features = ["serialize"] }
regex = "1"
reqwest = { version = "0.12", default-features = false, features = ["blocking", "json"] }
serde = { version = "1", features = ["derive"] }
serde_json = "1"
sscanf = "0.4"
strum = { version = "0.27", features = ["derive"] }
tempfile = "3"
toml = "0.8"
tracing-subscriber = { version = "0.3", features = ["env-filter"] }
