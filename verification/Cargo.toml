[package]
name = "lifeblood_manager"
version = "0.1.0"
edition = "2021"
publish = false

[dependencies]
semver = "1"
chrono = "0.4"
auto-launch = "0.5"
toml = "0.8"
serde = { version = "1", features = ["derive"] }
home = "0.5"
dunce = "1"
fs_extra = "1"
rand = "0.8"
tempfile = "3"
zip = { version = "0.6", default-features = false, features = ["deflate"] }
downloader = "0.2"
