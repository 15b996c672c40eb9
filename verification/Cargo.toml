[package]
name = "homepage"
version = "0.1.0"
edition = "2021"
publish = false

[dependencies]
ahash = "=0.8.12"
chrono = { version = "=0.4.45", features = ["serde"] }
dirs = "=7.0.0"
env_logger = "=0.11.11"
eyre = "=0.6.14"
lazy_static = "=1.5.1"
log = "=0.4.34"
musicbrainz_rs = { version = "=0.12.0", default-features = false, features = ["blocking", "rustls"] }
pulldown-cmark = { version = "=0.13.5", default-features = false, features = ["html"] }
reqwest = { version = "=0.12.28", default-features = false, features = ["blocking"] }
serde = { version = "=1.0.229", features = ["derive"] }
syntect = { version = "=5.3.0", default-features = false, features = ["default-fancy"] }
tiny_http = "=0.12.0"
toml = "=1.1.8"
uri-rs = "=0.0.4"
