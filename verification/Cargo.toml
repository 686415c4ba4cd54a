[package]
name = "koji"
version = "0.1.0"
edition = "2021"
publish = false

[dependencies]
anyhow = "=1.0.104"
clap = { version = "=4.6.7", features = ["derive"] }
clap_complete_command = "=0.6.1"
cocogitto = { version = "=6.5.0", default-features = false }
config = { version = "=0.15.27", default-features = false, features = ["toml"] }
conventional_commit_parser = "=0.9.4"
dirs = "=7.0.0"
emojis = "=0.9.1"
git2 = { version = "=0.20.4", default-features = false }
gix = { version = "=0.90.0", default-features = false, features = ["status", "sha1"] }
indexmap = "=2.14.2"
inquire = "=0.9.4"
linked-hash-map = "=0.5.6"
requestty = "=0.7.0"
serde = { version = "=1.0.229", features = ["derive"] }
xdg = "=3.0.0"
