[package]
name = "ppool"
version = "0.1.0"
edition = "2021"
publish = false

[dependencies]
rand = "=0.8.8"
regex = "=1.13.1"
serde = { version = "=1.0.229", features = ["derive"] }
serde_json = "=1.0.154"
toml = "=0.8.23"
reqwest = { version = "=0.11.27", features = ["blocking"] }
rocket = { version = "=0.5.2", features = ["json"] }
structopt = "=0.3.26"
threadpool = "=1.8.1"
app_dirs = "=1.2.1"
env_logger = "=0.10.2"
log = "=0.4.34"
libxml = "=0.2.16"
lazy_static = "=1.5.1"
