[package]
name = "apinae"
version = "0.1.0"
edition = "2021"
publish = false

[dependencies]
regex = "*"
serde = { version = "*", features = ["derive"] }
serde_json = "*"
clap = { version = "*", features = ["derive"] }
log = "*"
env_logger = "*"
dirs = "*"
tokio = { version = "*", features = ["full"] }
actix-web = { version = "*", features = ["rustls-0_23"] }
reqwest = "*"
rustls = "*"
rustls-pemfile = "*"
