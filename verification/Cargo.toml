[package]
name = "deoxidizer_lib"
version = "0.1.0"
edition = "2021"
publish = false

[dependencies]
clap = { version = "=4.6.7", features = ["derive"] }
colored = "=3.1.1"
dialoguer = "=0.12.0"
dirs = "=7.0.0"
flate2 = "=1.1.10"
hex = "=0.4.3"
humansize = "=2.1.3"
self-replace = "=1.5.1"
semver = "=1.0.28"
serde = { version = "=1.0.229", features = ["derive"] }
serde_json = { version = "=1.0.154", features = ["preserve_order"] }
sha2 = "=0.11.1"
tar = "=0.4.46"
tempfile = "=3.27.0"
toml = "=0.9.12"
trash = "=5.2.9"
ureq = "=2.12.1"
walkdir = "=2.5.0"
zip = { version = "=8.6.0", default-features = false, features = ["deflate"] }
