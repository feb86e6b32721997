[package]
name = "rose_proxy"
version = "0.1.0"
edition = "2021"
publish = false

[dependencies]
serde_json = "*"
mime_guess = "*"
httpdate = "*"
pingora = { version = "*", features = ["proxy"] }
tokio = { version = "*", features = ["fs", "io-util", "sync", "time", "macros", "rt"] }
async-trait = "*"
http = "*"
bytes = "*"
log = "*"
env_logger = "*"
serde = { version = "*", features = ["derive"] }
toml = "*"
