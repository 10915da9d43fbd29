[package]
name = "podcatch_rust"
version = "0.1.0"
edition = "2021"
publish = false

[dependencies]
anyhow = "*"
checksums = "*"
clap = { version = "*", features = ["derive"] }
deadpool-postgres = "*"
dirs = "*"
dotenvy = "*"
env_logger = "*"
envy = "*"
futures = "*"
id3 = "*"
log = "*"
rand = "*"
reqwest = { version = "*", default-features = false, features = ["stream"] }
roxmltree = "*"
serde = { version = "*", features = ["derive"] }
stdout-channel = "*"
tokio = { version = "*", features = ["macros", "rt-multi-thread", "fs", "time", "io-util"] }
tokio-postgres = "*"
url = "*"
walkdir = "*"
