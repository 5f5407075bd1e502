[package]
name = "spinup"
version = "0.1.0"
edition = "2021"
publish = false

[dependencies]
clap = "2"
dirs = "*"
flexi_logger = "*"
futures = "0.3"
libc = "0.2"
log = "0.4"
reqwest = { version = "0.11", default-features = false }
serde = { version = "1", features = ["derive"] }
serde_json = "1"
serde_yaml = "0.8"
sys-info = "0.9"
tokio = { version = "1", features = ["macros", "rt-multi-thread"] }
toml = "0.5"
