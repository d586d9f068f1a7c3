[package]
name = "cohost_dl"
version = "2.0.0"
edition = "2021"
publish = false

[dependencies]
anyhow = "=1.0.104"
async-recursion = "=1.2.0"
async-scoped = { version = "=0.9.0", features = ["use-tokio"] }
axum = "=0.7.9"
chrono = "=0.4.45"
clap = { version = "=4.6.7", features = ["derive"] }
cssparser = "=0.34.0"
deno_core = "0.314"
diesel = { version = "=2.3.14", features = ["sqlite"] }
diesel_migrations = "=2.3.2"
env_logger = "=0.11.11"
hex = "=0.4.3"
html5ever = "=0.26.0"
indicatif = "=0.17.11"
kuchikiki = "=0.8.2"
log = "=0.4.34"
pulldown-cmark = "=0.12.2"
reqwest = { version = "=0.12.28", default-features = false }
rmp-serde = "=1.3.1"
serde = { version = "=1.0.229", features = ["derive"] }
serde_json = "=1.0.154"
sha2 = "=0.10.9"
tempfile = "=3.27.0"
tera = { version = "=1.20.1", default-features = false }
thiserror = "=1.0.69"
tokio = { version = "=1.54.1", features = ["full"] }
tokio-util = { version = "=0.7.20", features = ["io"] }
toml = "=0.8.23"
urlencoding = "=2.1.3"
