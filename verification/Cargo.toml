[package]
name = "raptor"
version = "0.1.0"
edition = "2021"
publish = false

[dependencies]
camino = "=1.2.6"
uuid = { version = "=1.29.0", features = ["v4"] }
minijinja = { version = "=2.24.0", features = ["loader", "custom_syntax"] }
clap = { version = "=4.6.7", features = ["derive", "string"] }
clap_complete = "=4.6.11"
colog = "=1.4.0"
colored = "=3.1.1"
log = "=0.4.35"
serde = { version = "=1.0.229", features = ["derive"] }
serde_json = "=1.0.154"
toml = "=1.1.8"
siphasher = "=1.0.4"
nix = { version = "=0.31.3", features = ["user"] }
annotate-snippets = "=0.12.17"
anstream = "=1.0.0"
thiserror = "=2.0.21"
camino-tempfile = "=1.4.1"
