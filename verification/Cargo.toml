[package]
name = "website"
version = "0.1.0"
edition = "2021"
publish = false

[dependencies]
color-eyre = "0.6"
notify = "6"
rand = "0.8"
serde = { version = "1", features = ["derive"] }
serde_derive = "1"
tera = "1"
toml = "0.8"
tracing = "0.1"
tracing-subscriber = { version = "0.3", features = ["env-filter"] }
